//! The requests of the Google Drive API, version 3.
//!
//! A request says what goes over the wire; whoever sends it adds the access token.
//!
//! When a Shared Drive is mounted, all listing requests carry `driveId` and `corpora=drive`.
//! All requests for files carry `supportsAllDrives=true`.

use vstd::prelude::*;

use crate::backend::gdrive::time::{countable_instant, instant, is_countable_instant};
use crate::backend::gdrive::time::parse_rfc3339;
use crate::json::{json_string, quote};
use crate::number::{decimal, is_digit, lemma_decimal_reads_back, parse_u64, unsigned};
use crate::stat::{StatData, DIRECTORY_MODE, REGULAR_MODE};
use crate::text::{cat2, cat3, opt_string, opt_text, same, views};

verus! {

pub type Text = Seq<char>;

/// The type of a folder.
pub open spec fn folder_mime() -> Text {
    "application/vnd.google-apps.folder"@
}

/// The fields of a file that are asked for.
pub open spec fn file_fields() -> Text {
    "id,name,mimeType,size,modifiedTime,parents"@
}

/// Where the API answers.
pub open spec fn api_base() -> Text {
    "https://www.googleapis.com/drive/v3"@
}

/// Where the API takes contents.
pub open spec fn upload_base() -> Text {
    "https://www.googleapis.com/upload/drive/v3"@
}

// ---------------------------------------------------------------------------
// Files
// ---------------------------------------------------------------------------

/// A file as the API describes it.
pub struct DriveFile {
    pub id: String,
    pub name: String,
    pub mime_type: String,
    /// `None` for Google-native formats (Docs, Sheets …).
    pub size: Option<String>,
    pub modified_time: Option<String>,
    pub parents: Option<Vec<String>>,
}

/// What contracts say of a file.
pub struct FileModel {
    pub id: Text,
    pub name: Text,
    pub mime_type: Text,
    pub size: Option<Text>,
    pub modified_time: Option<Text>,
    pub parents: Option<Seq<Text>>,
}

impl View for DriveFile {
    type V = FileModel;

    open spec fn view(&self) -> FileModel {
        FileModel {
            id: self.id@,
            name: self.name@,
            mime_type: self.mime_type@,
            size: opt_string(self.size),
            modified_time: opt_string(self.modified_time),
            parents: match self.parents {
                Some(v) => Some(views(v@)),
                None => None,
            },
        }
    }
}

impl FileModel {
    /// The file is a folder.
    pub open spec fn is_dir(self) -> bool {
        self.mime_type == folder_mime()
    }

    /// The file is in one of Google's own formats, which have no size.
    pub open spec fn is_native(self) -> bool {
        self.size is None && !self.is_dir()
    }

    /// The size of the file; 0 where none is given.
    pub open spec fn size_bytes(self) -> u64 {
        match self.size {
            Some(s) => match unsigned(s, u64::MAX as int) {
                Some(n) => n as u64,
                None => 0,
            },
            None => 0,
        }
    }

    /// When the file was changed, in seconds after the epoch; 0 where that is not given.
    pub open spec fn mtime_secs(self) -> u64 {
        match self.modified_time {
            Some(s) => match instant(s) {
                Some(t) => t as u64,
                None => 0,
            },
            None => 0,
        }
    }

    /// When the file was changed can be counted.
    pub open spec fn wf(self) -> bool {
        self.modified_time matches Some(s) ==> countable_instant(s)
    }

    /// The attributes of the file, which belongs to the user of the mount.
    pub open spec fn stat(self, uid: u32, gid: u32) -> StatData {
        StatData {
            size: self.size_bytes(),
            uid,
            gid,
            perm: if self.is_dir() {
                DIRECTORY_MODE
            } else {
                REGULAR_MODE
            },
            atime: self.mtime_secs(),
            mtime: self.mtime_secs(),
        }
    }
}

impl DriveFile {
    /// Tells whether the time of the last change can be counted.
    pub fn has_countable_mtime(&self) -> (r: bool)
        ensures
            r == self@.wf(),
    {
        match &self.modified_time {
            Some(s) => is_countable_instant(s.as_str()),
            None => true,
        }
    }

    /// Tells whether the file is a folder.
    pub fn is_dir(&self) -> (r: bool)
        ensures
            r == self@.is_dir(),
    {
        same(self.mime_type.as_str(), "application/vnd.google-apps.folder")
    }

    /// Tells whether the file is in one of Google's own formats.
    pub fn is_native(&self) -> (r: bool)
        ensures
            r == self@.is_native(),
    {
        self.size.is_none() && !self.is_dir()
    }

    /// The size of the file; 0 where none is given.
    pub fn size_bytes(&self) -> (n: u64)
        ensures
            n == self@.size_bytes(),
    {
        match &self.size {
            Some(s) => match parse_u64(s.as_str()) {
                Some(n) => n,
                None => 0,
            },
            None => 0,
        }
    }

    /// When the file was changed, in seconds after the epoch; 0 where that is not given.
    pub fn mtime_secs(&self) -> (t: u64)
        requires
            self@.wf(),
        ensures
            t == self@.mtime_secs(),
    {
        match &self.modified_time {
            Some(s) => match parse_rfc3339(s.as_str()) {
                Some(t) => t,
                None => 0,
            },
            None => 0,
        }
    }
}

/// The attributes of a file, which belongs to the user of the mount.
pub fn drive_file_to_stat(f: &DriveFile, uid: u32, gid: u32) -> (s: StatData)
    requires
        f@.wf(),
    ensures
        s == f@.stat(uid, gid),
{
    let perm: u32 = if f.is_dir() {
        DIRECTORY_MODE
    } else {
        REGULAR_MODE
    };
    let mtime: u64 = f.mtime_secs();
    StatData { size: f.size_bytes(), uid, gid, perm, atime: mtime, mtime }
}

// ---------------------------------------------------------------------------
// Requests
// ---------------------------------------------------------------------------

#[derive(Clone, Copy, Debug, PartialEq, Eq, Structural)]
pub enum Method {
    Get,
    Post,
    Patch,
    Delete,
}

/// What a request carries.
pub enum Body<S> {
    Empty,
    Json(S),
    /// A multipart text with the boundary between its parts.
    Multipart { boundary: S, text: S },
    /// The content of the file that is uploaded.
    Content,
}

/// A request to the API.
pub struct HttpRequest {
    pub method: Method,
    pub url: String,
    pub query: Vec<(String, String)>,
    pub body: Body<String>,
}

/// What contracts say of a request.
pub struct RequestModel {
    pub method: Method,
    pub url: Text,
    pub query: Seq<(Text, Text)>,
    pub body: Body<Text>,
}

/// The view of a query.
pub open spec fn pairs(q: Seq<(String, String)>) -> Seq<(Text, Text)> {
    q.map_values(|p: (String, String)| (p.0@, p.1@))
}

impl View for HttpRequest {
    type V = RequestModel;

    open spec fn view(&self) -> RequestModel {
        RequestModel {
            method: self.method,
            url: self.url@,
            query: pairs(self.query@),
            body: match self.body {
                Body::Empty => Body::Empty,
                Body::Json(s) => Body::Json(s@),
                Body::Multipart { boundary, text } => Body::Multipart {
                    boundary: boundary@,
                    text: text@,
                },
                Body::Content => Body::Content,
            },
        }
    }
}

/// Where a file is.
pub open spec fn file_url(base: Text, id: Text) -> Text {
    base + "/files/"@ + id
}

fn push_pair(q: &mut Vec<(String, String)>, k: &str, v: &str)
    ensures
        pairs(final(q)@) == pairs(old(q)@).push((k@, v@)),
{
    q.push((k.to_owned(), v.to_owned()));
    assert(pairs(q@) =~= pairs(old(q)@).push((k@, v@)));
}

fn no_pairs() -> (q: Vec<(String, String)>)
    ensures
        pairs(q@) == Seq::<(Text, Text)>::empty(),
{
    let q: Vec<(String, String)> = Vec::new();
    assert(pairs(q@) =~= Seq::<(Text, Text)>::empty());
    q
}

fn query1(k: &str, v: &str) -> (q: Vec<(String, String)>)
    ensures
        pairs(q@) == seq![(k@, v@)],
{
    let mut q = no_pairs();
    push_pair(&mut q, k, v);
    assert(pairs(q@) =~= seq![(k@, v@)]);
    q
}

fn query2(k: &str, v: &str, l: &str, w: &str) -> (q: Vec<(String, String)>)
    ensures
        pairs(q@) == seq![(k@, v@), (l@, w@)],
{
    let mut q = query1(k, v);
    push_pair(&mut q, l, w);
    assert(pairs(q@) =~= seq![(k@, v@), (l@, w@)]);
    q
}

/// Asks for the account's email address.
pub fn about_user_request() -> (r: HttpRequest)
    ensures
        r@ == (RequestModel {
            method: Method::Get,
            url: api_base() + "/about"@,
            query: seq![("fields"@, "user/emailAddress"@)],
            body: Body::Empty,
        }),
{
    HttpRequest {
        method: Method::Get,
        url: cat2("https://www.googleapis.com/drive/v3", "/about"),
        query: query1("fields", "user/emailAddress"),
        body: Body::Empty,
    }
}

/// What is said where the API refuses to tell the account.
pub open spec fn forbidden_text() -> Text {
    "Google Drive API returned 403 Forbidden.\n\nThis usually means one of:\n\n"@
        + "1. The Google Drive API is not enabled for your Cloud project.\nEnable it at: "@
        + "https://console.cloud.google.com/apis/library/drive.googleapis.com\n\n"@
        + "2. Your cached token was issued before the Drive scope was granted.\n"@
        + "Delete it and re-authorize:\nrm ~/.config/remotefs/gdrive_token_*.json"@
}

/// What to say of the HTTP status of an answer about the account, where it is a refusal.
pub fn account_refusal(status: u16) -> (r: Option<String>)
    ensures
        match r {
            Some(m) => status == 403 && m@ == forbidden_text(),
            None => status != 403,
        },
{
    if status == 403 {
        Some(
            "Google Drive API returned 403 Forbidden.\n\nThis usually means one of:\n\n".to_owned().concat(
                "1. The Google Drive API is not enabled for your Cloud project.\nEnable it at: ",
            ).concat(
                "https://console.cloud.google.com/apis/library/drive.googleapis.com\n\n",
            ).concat(
                "2. Your cached token was issued before the Drive scope was granted.\n",
            ).concat(
                "Delete it and re-authorize:\nrm ~/.config/remotefs/gdrive_token_*.json",
            ),
        )
    } else {
        None
    }
}

/// Asks for the account's storage quota.
pub fn about_quota_request() -> (r: HttpRequest)
    ensures
        r@ == (RequestModel {
            method: Method::Get,
            url: api_base() + "/about"@,
            query: seq![("fields"@, "storageQuota"@)],
            body: Body::Empty,
        }),
{
    HttpRequest {
        method: Method::Get,
        url: cat2("https://www.googleapis.com/drive/v3", "/about"),
        query: query1("fields", "storageQuota"),
        body: Body::Empty,
    }
}

/// The number in a text, or 0.
pub open spec fn number_or_zero(s: Text) -> u64 {
    match unsigned(s, u64::MAX as int) {
        Some(n) => n as u64,
        None => 0,
    }
}

fn parse_or_zero(s: &str) -> (n: u64)
    ensures
        n == number_or_zero(s@),
{
    match parse_u64(s) {
        Some(n) => n,
        None => 0,
    }
}

/// The total and the free bytes of a storage quota. A quota without a limit has a total of 0.
pub fn storage_quota(limit: Option<&str>, usage: &str) -> (r: (u64, u64))
    ensures
        r.0 == (match limit {
            Some(s) => number_or_zero(s@),
            None => 0,
        }),
        r.1 == (if r.0 >= number_or_zero(usage@) {
            r.0 - number_or_zero(usage@)
        } else {
            0
        }),
{
    let used: u64 = parse_or_zero(usage);
    let total: u64 = match limit {
        Some(s) => parse_or_zero(s),
        None => 0,
    };
    (total, total.saturating_sub(used))
}

/// The request for a file's metadata.
pub open spec fn get_file_model(id: Text) -> RequestModel {
    RequestModel {
        method: Method::Get,
        url: file_url(api_base(), id),
        query: seq![("fields"@, file_fields()), ("supportsAllDrives"@, "true"@)],
        body: Body::Empty,
    }
}

/// Asks for a file's metadata.
pub fn get_file_request(id: &str) -> (r: HttpRequest)
    ensures
        r@ == get_file_model(id@),
{
    HttpRequest {
        method: Method::Get,
        url: cat3("https://www.googleapis.com/drive/v3", "/files/", id),
        query: query2(
            "fields",
            "id,name,mimeType,size,modifiedTime,parents",
            "supportsAllDrives",
            "true",
        ),
        body: Body::Empty,
    }
}

/// Where the id of the root comes from.
pub enum RootId {
    /// It is known.
    Known(String),
    /// It is that of the file that the request asks for.
    Ask(HttpRequest),
}

/// Tells the id of the root: a Shared Drive's is the drive's own; that of My Drive is to be
/// asked for.
pub fn resolve_root_id(shared_drive: Option<&str>) -> (r: RootId)
    ensures
        match (shared_drive, r) {
            (Some(d), RootId::Known(id)) => id@ == d@,
            (None, RootId::Ask(q)) => q@ == get_file_model("root"@),
            _ => false,
        },
{
    match shared_drive {
        Some(d) => RootId::Known(d.to_owned()),
        None => RootId::Ask(get_file_request("root")),
    }
}

// ---------------------------------------------------------------------------
// Listings
// ---------------------------------------------------------------------------

/// The query for the children of a folder that are not in the trash.
pub open spec fn children_query(folder: Text) -> Text {
    "'"@ + folder + "' in parents and trashed = false"@
}

/// The query for the children of a folder.
pub fn children_of(folder: &str) -> (q: String)
    ensures
        q@ == children_query(folder@),
{
    cat3("'", folder, "' in parents and trashed = false")
}

/// The query for everything in the trash.
pub open spec fn trash_query() -> Text {
    "trashed = true"@
}

/// The query for everything in the trash.
pub fn in_trash_query() -> (q: String)
    ensures
        q@ == trash_query(),
{
    "trashed = true".to_owned()
}

/// The request for one page of a listing.
pub open spec fn list_model(q: Text, drive: Option<Text>, page: Option<Text>) -> RequestModel {
    RequestModel {
        method: Method::Get,
        url: api_base() + "/files"@,
        query: seq![
            ("q"@, q),
            ("fields"@, "nextPageToken,files("@ + file_fields() + ")"@),
            ("pageSize"@, "1000"@),
            ("supportsAllDrives"@, "true"@),
            ("includeItemsFromAllDrives"@, "true"@),
        ] + (match drive {
            Some(d) => seq![("corpora"@, "drive"@), ("driveId"@, d)],
            None => Seq::empty(),
        }) + (match page {
            Some(p) => seq![("pageToken"@, p)],
            None => Seq::empty(),
        }),
        body: Body::Empty,
    }
}

/// Asks for one page of a listing.
pub fn list_request(q: &str, drive: Option<&str>, page: Option<&str>) -> (r: HttpRequest)
    ensures
        r@ == list_model(q@, opt_text(drive), opt_text(page)),
{
    let fields = cat3(
        "nextPageToken,files(",
        "id,name,mimeType,size,modifiedTime,parents",
        ")",
    );
    let mut query = query2("q", q, "fields", fields.as_str());
    push_pair(&mut query, "pageSize", "1000");
    push_pair(&mut query, "supportsAllDrives", "true");
    push_pair(&mut query, "includeItemsFromAllDrives", "true");
    match drive {
        Some(d) => {
            push_pair(&mut query, "corpora", "drive");
            push_pair(&mut query, "driveId", d);
        },
        None => {},
    }
    match page {
        Some(p) => {
            push_pair(&mut query, "pageToken", p);
        },
        None => {},
    }
    assert(pairs(query@) =~= list_model(q@, opt_text(drive), opt_text(page)).query);
    HttpRequest {
        method: Method::Get,
        url: cat2("https://www.googleapis.com/drive/v3", "/files"),
        query,
        body: Body::Empty,
    }
}

/// The view of files.
pub open spec fn models(v: Seq<DriveFile>) -> Seq<FileModel> {
    v.map_values(|f: DriveFile| f@)
}

/// A listing that comes in pages.
pub struct Pages {
    pub query: String,
    pub drive: Option<String>,
    /// The files of the pages so far, in order.
    pub files: Vec<DriveFile>,
}

impl Pages {
    /// Starts a listing, with the request for its first page.
    pub fn start(query: String, drive: Option<String>) -> (r: (Self, HttpRequest))
        ensures
            r.0.query == query,
            r.0.drive == drive,
            models(r.0.files@) == Seq::<FileModel>::empty(),
            r.1@ == list_model(query@, opt_string(drive), None),
    {
        let files: Vec<DriveFile> = Vec::new();
        assert(models(files@) =~= Seq::<FileModel>::empty());
        let request = list_request(
            query.as_str(),
            match &drive {
                Some(d) => Some(d.as_str()),
                None => None,
            },
            None,
        );
        (Pages { query, drive, files }, request)
    }

    /// Takes a page in. Returns the request for the next one where there is a token for it.
    pub fn take(&mut self, page: Vec<DriveFile>, next_page_token: Option<&str>) -> (r: Option<
        HttpRequest,
    >)
        ensures
            final(self).query == old(self).query,
            final(self).drive == old(self).drive,
            models(final(self).files@) == models(old(self).files@) + models(page@),
            match (r, next_page_token) {
                (Some(req), Some(t)) => req@ == list_model(
                    old(self).query@,
                    opt_string(old(self).drive),
                    Some(t@),
                ),
                (None, None) => true,
                _ => false,
            },
    {
        let mut page = page;
        let ghost before = self.files@;
        let ghost added = page@;
        self.files.append(&mut page);
        assert(models(self.files@) =~= models(before) + models(added));
        match next_page_token {
            Some(t) => Some(
                list_request(
                    self.query.as_str(),
                    match &self.drive {
                        Some(d) => Some(d.as_str()),
                        None => None,
                    },
                    Some(t),
                ),
            ),
            None => None,
        }
    }
}

// ---------------------------------------------------------------------------
// Contents
// ---------------------------------------------------------------------------

/// Asks for a file's content.
pub fn download_request(id: &str) -> (r: HttpRequest)
    ensures
        r@ == (RequestModel {
            method: Method::Get,
            url: file_url(api_base(), id@),
            query: seq![("alt"@, "media"@), ("supportsAllDrives"@, "true"@)],
            body: Body::Empty,
        }),
{
    HttpRequest {
        method: Method::Get,
        url: cat3("https://www.googleapis.com/drive/v3", "/files/", id),
        query: query2("alt", "media", "supportsAllDrives", "true"),
        body: Body::Empty,
    }
}

/// Replaces a file's content.
pub fn upload_request(id: &str) -> (r: HttpRequest)
    ensures
        r@ == (RequestModel {
            method: Method::Patch,
            url: file_url(upload_base(), id@),
            query: seq![("uploadType"@, "media"@), ("supportsAllDrives"@, "true"@)],
            body: Body::Content,
        }),
{
    HttpRequest {
        method: Method::Patch,
        url: cat3("https://www.googleapis.com/upload/drive/v3", "/files/", id),
        query: query2("uploadType", "media", "supportsAllDrives", "true"),
        body: Body::Content,
    }
}

// ---------------------------------------------------------------------------
// Changes
// ---------------------------------------------------------------------------

/// What separates the parts of a multipart request.
pub open spec fn boundary() -> Text {
    "---drive_boundary_remotefs"@
}

/// The metadata of a new file.
pub open spec fn file_meta(parent: Text, name: Text) -> Text {
    "{\"name\":"@ + json_string(name) + ",\"parents\":["@ + json_string(parent) + "]}"@
}

/// The two parts of the request for a new file: its metadata, and no content.
pub open spec fn create_text(parent: Text, name: Text) -> Text {
    "--"@ + boundary() + "\r\nContent-Type: application/json; charset=UTF-8\r\n\r\n"@ + file_meta(
        parent,
        name,
    ) + "\r\n--"@ + boundary() + "\r\nContent-Type: application/octet-stream\r\n\r\n\r\n--"@
        + boundary() + "--"@
}

/// The request for a new file.
pub open spec fn create_file_model(parent: Text, name: Text) -> RequestModel {
    RequestModel {
        method: Method::Post,
        url: upload_base() + "/files"@,
        query: seq![
            ("uploadType"@, "multipart"@),
            ("fields"@, file_fields()),
            ("supportsAllDrives"@, "true"@),
        ],
        body: Body::Multipart { boundary: boundary(), text: create_text(parent, name) },
    }
}

/// Creates an empty file.
pub fn create_file_request(parent: &str, name: &str) -> (r: HttpRequest)
    ensures
        r@ == create_file_model(parent@, name@),
{
    let meta = "{\"name\":".to_owned().concat(quote(name).as_str()).concat(",\"parents\":[").concat(
        quote(parent).as_str(),
    ).concat("]}");
    let b = "---drive_boundary_remotefs";
    let text = "--".to_owned().concat(b).concat(
        "\r\nContent-Type: application/json; charset=UTF-8\r\n\r\n",
    ).concat(meta.as_str()).concat("\r\n--").concat(b).concat(
        "\r\nContent-Type: application/octet-stream\r\n\r\n\r\n--",
    ).concat(b).concat("--");
    let mut query = query2(
        "uploadType",
        "multipart",
        "fields",
        "id,name,mimeType,size,modifiedTime,parents",
    );
    push_pair(&mut query, "supportsAllDrives", "true");
    assert(pairs(query@) =~= create_file_model(parent@, name@).query);
    HttpRequest {
        method: Method::Post,
        url: cat2("https://www.googleapis.com/upload/drive/v3", "/files"),
        query,
        body: Body::Multipart { boundary: b.to_owned(), text },
    }
}

/// The request for a new folder.
pub open spec fn create_folder_model(parent: Text, name: Text) -> RequestModel {
    RequestModel {
        method: Method::Post,
        url: api_base() + "/files"@,
        query: seq![("fields"@, file_fields()), ("supportsAllDrives"@, "true"@)],
        body: Body::Json(
            "{\"mimeType\":"@ + json_string(folder_mime()) + ",\"name\":"@ + json_string(name)
                + ",\"parents\":["@ + json_string(parent) + "]}"@,
        ),
    }
}

/// Creates a folder.
pub fn create_folder_request(parent: &str, name: &str) -> (r: HttpRequest)
    ensures
        r@ == create_folder_model(parent@, name@),
{
    let json = "{\"mimeType\":".to_owned().concat(
        quote("application/vnd.google-apps.folder").as_str(),
    ).concat(",\"name\":").concat(quote(name).as_str()).concat(",\"parents\":[").concat(
        quote(parent).as_str(),
    ).concat("]}");
    HttpRequest {
        method: Method::Post,
        url: cat2("https://www.googleapis.com/drive/v3", "/files"),
        query: query2(
            "fields",
            "id,name,mimeType,size,modifiedTime,parents",
            "supportsAllDrives",
            "true",
        ),
        body: Body::Json(json),
    }
}

/// The request that moves a file to the trash.
pub open spec fn trash_model(id: Text) -> RequestModel {
    RequestModel {
        method: Method::Patch,
        url: file_url(api_base(), id),
        query: seq![("supportsAllDrives"@, "true"@), ("fields"@, "id"@)],
        body: Body::Json("{\"trashed\":true}"@),
    }
}

/// Moves a file to the trash, from where it can be restored.
pub fn trash_file_request(id: &str) -> (r: HttpRequest)
    ensures
        r@ == trash_model(id@),
{
    HttpRequest {
        method: Method::Patch,
        url: cat3("https://www.googleapis.com/drive/v3", "/files/", id),
        query: query2("supportsAllDrives", "true", "fields", "id"),
        body: Body::Json("{\"trashed\":true}".to_owned()),
    }
}

/// Texts with commas between them.
pub open spec fn comma_joined(v: Seq<Text>) -> Text
    decreases v.len(),
{
    if v.len() == 0 {
        Seq::empty()
    } else if v.len() == 1 {
        v[0]
    } else {
        comma_joined(v.drop_last()) + ","@ + v.last()
    }
}

/// The parents of a file, with commas between them.
pub open spec fn parent_list(f: FileModel) -> Text {
    match f.parents {
        Some(v) => comma_joined(v),
        None => Seq::empty(),
    }
}

/// Joins the parents of a file with commas.
pub fn join_parents(f: &DriveFile) -> (r: String)
    ensures
        r@ == parent_list(f@),
{
    let mut r = String::new();
    match &f.parents {
        Some(v) => {
            let ghost s = views(v@);
            let mut i: usize = 0;
            assert(s.take(0) =~= Seq::<Text>::empty());
            while i < v.len()
                invariant
                    s == views(v@),
                    i <= v@.len(),
                    r@ == comma_joined(s.take(i as int)),
                decreases v@.len() - i,
            {
                proof {
                    assert(s.take(i + 1).drop_last() =~= s.take(i as int));
                    assert(s.take(i + 1).last() == v@[i as int]@);
                }
                r = if i == 0 {
                    assert(s.take(1)[0] == v@[0]@);
                    v[0].clone()
                } else {
                    cat3(r.as_str(), ",", v[i].as_str())
                };
                i = i + 1;
            }
            assert(s.take(i as int) =~= s);
        },
        None => {
            assert(r@ =~= Seq::<char>::empty());
        },
    }
    r
}

/// The request that takes a file out of the trash, out of its parents, and into a folder.
pub open spec fn restore_model(
    id: Text,
    old_parents: Text,
    parent: Text,
    name: Text,
) -> RequestModel {
    RequestModel {
        method: Method::Patch,
        url: file_url(api_base(), id),
        query: seq![
            ("supportsAllDrives"@, "true"@),
            ("addParents"@, parent),
            ("fields"@, "id"@),
        ] + (if old_parents.len() == 0 {
            Seq::empty()
        } else {
            seq![("removeParents"@, old_parents)]
        }),
        body: Body::Json("{\"name\":"@ + json_string(name) + ",\"trashed\":false}"@),
    }
}

/// Restores a trashed file: moves it to `parent` under a name.
pub fn restore_file_request(id: &str, old_parents: &str, parent: &str, name: &str) -> (r:
    HttpRequest)
    ensures
        r@ == restore_model(id@, old_parents@, parent@, name@),
{
    let mut query = query2("supportsAllDrives", "true", "addParents", parent);
    push_pair(&mut query, "fields", "id");
    if !old_parents.is_empty() {
        push_pair(&mut query, "removeParents", old_parents);
    }
    assert(pairs(query@) =~= restore_model(id@, old_parents@, parent@, name@).query);
    HttpRequest {
        method: Method::Patch,
        url: cat3("https://www.googleapis.com/drive/v3", "/files/", id),
        query,
        body: Body::Json(cat3("{\"name\":", quote(name).as_str(), ",\"trashed\":false}")),
    }
}

/// The request that deletes a file for good.
pub open spec fn delete_model(id: Text) -> RequestModel {
    RequestModel {
        method: Method::Delete,
        url: file_url(api_base(), id),
        query: seq![("supportsAllDrives"@, "true"@)],
        body: Body::Empty,
    }
}

/// Deletes a file for good, past the trash.
pub fn delete_permanent_request(id: &str) -> (r: HttpRequest)
    ensures
        r@ == delete_model(id@),
{
    HttpRequest {
        method: Method::Delete,
        url: cat3("https://www.googleapis.com/drive/v3", "/files/", id),
        query: query1("supportsAllDrives", "true"),
        body: Body::Empty,
    }
}

/// The request that moves a file from one folder to another, and renames it unless the new
/// name is empty.
pub open spec fn rename_model(
    id: Text,
    name: Text,
    old_parent: Text,
    new_parent: Text,
) -> RequestModel {
    RequestModel {
        method: Method::Patch,
        url: file_url(api_base(), id),
        query: seq![
            ("supportsAllDrives"@, "true"@),
            ("addParents"@, new_parent),
            ("removeParents"@, old_parent),
            ("fields"@, "id"@),
        ],
        body: if name.len() == 0 {
            Body::Empty
        } else {
            Body::Json("{\"name\":"@ + json_string(name) + "}"@)
        },
    }
}

/// Renames a file, and moves it from one folder to another.
pub fn rename_request(id: &str, name: &str, old_parent: &str, new_parent: &str) -> (r: HttpRequest)
    ensures
        r@ == rename_model(id@, name@, old_parent@, new_parent@),
{
    let mut query = query2("supportsAllDrives", "true", "addParents", new_parent);
    push_pair(&mut query, "removeParents", old_parent);
    push_pair(&mut query, "fields", "id");
    assert(pairs(query@) =~= rename_model(id@, name@, old_parent@, new_parent@).query);
    HttpRequest {
        method: Method::Patch,
        url: cat3("https://www.googleapis.com/drive/v3", "/files/", id),
        query,
        body: if name.is_empty() {
            Body::Empty
        } else {
            Body::Json(cat3("{\"name\":", quote(name).as_str(), "}"))
        },
    }
}

// ---------------------------------------------------------------------------
// Laws
// ---------------------------------------------------------------------------

/// Every page of a listing of a Shared Drive is asked for with what the API wants of it: the
/// drive's id, the drive as the corpus, and items from all drives.
pub proof fn law_shared_drive_listing(q: Text, drive: Text, page: Option<Text>)
    ensures
        list_model(q, Some(drive), page).query.contains(("driveId"@, drive)),
        list_model(q, Some(drive), page).query.contains(("corpora"@, "drive"@)),
        list_model(q, Some(drive), page).query.contains(("includeItemsFromAllDrives"@, "true"@)),
        list_model(q, Some(drive), page).query.contains(("supportsAllDrives"@, "true"@)),
{
    let s = list_model(q, Some(drive), page).query;
    assert(s[6] == ("driveId"@, drive));
    assert(s[5] == ("corpora"@, "drive"@));
    assert(s[4] == ("includeItemsFromAllDrives"@, "true"@));
    assert(s[3] == ("supportsAllDrives"@, "true"@));
}

/// A request about a file is sent to the address of that file, and asks for what it is for: to
/// look at it, to trash it, to delete it, to restore it or to move it.
pub proof fn law_requests_are_about_their_file(id: Text, a: Text, b: Text, c: Text)
    ensures
        ({
            let url = "https://www.googleapis.com/drive/v3"@ + "/files/"@ + id;
            &&& get_file_model(id).url == url && get_file_model(id).method == Method::Get
            &&& trash_model(id).url == url && trash_model(id).method == Method::Patch
            &&& trash_model(id).body == Body::Json("{\"trashed\":true}"@)
            &&& delete_model(id).url == url && delete_model(id).method == Method::Delete
            &&& restore_model(id, a, b, c).url == url && restore_model(id, a, b, c).method
                == Method::Patch
            &&& rename_model(id, a, b, c).url == url && rename_model(id, a, b, c).method
                == Method::Patch
        }),
{
}

/// A move takes the file out of the old folder and into the new one, under the new name.
pub proof fn law_move_request(id: Text, name: Text, old_parent: Text, new_parent: Text)
    ensures
        ({
            let m = rename_model(id, name, old_parent, new_parent);
            &&& m.query.contains(("addParents"@, new_parent))
            &&& m.query.contains(("removeParents"@, old_parent))
            &&& name.len() > 0 ==> m.body == Body::Json("{\"name\":"@ + json_string(name) + "}"@)
            &&& name.len() == 0 ==> m.body == Body::<Text>::Empty
        }),
{
    let m = rename_model(id, name, old_parent, new_parent);
    assert(m.query[1] == ("addParents"@, new_parent));
    assert(m.query[2] == ("removeParents"@, old_parent));
}

/// A restored file goes out of the trash and of all its parents, where it has any, into the
/// folder, under the name.
pub proof fn law_restore_request(id: Text, old_parents: Text, parent: Text, name: Text)
    ensures
        ({
            let m = restore_model(id, old_parents, parent, name);
            &&& m.query.contains(("addParents"@, parent))
            &&& old_parents.len() > 0 ==> m.query.contains(("removeParents"@, old_parents))
            &&& old_parents.len() == 0 ==> m.query.len() == 3
            &&& m.body == Body::Json("{\"name\":"@ + json_string(name) + ",\"trashed\":false}"@)
        }),
{
    let m = restore_model(id, old_parents, parent, name);
    assert(m.query[1] == ("addParents"@, parent));
    if old_parents.len() > 0 {
        assert(m.query[3] == ("removeParents"@, old_parents));
    }
}

/// A new file or folder is made with its name, in its parent; the folder with a folder's type.
pub proof fn law_create_requests(parent: Text, name: Text)
    ensures
        create_file_model(parent, name).method == Method::Post,
        create_file_model(parent, name).url == "https://www.googleapis.com/upload/drive/v3"@
            + "/files"@,
        create_file_model(parent, name).query.contains(("uploadType"@, "multipart"@)),
        file_meta(parent, name) == "{\"name\":"@ + json_string(name) + ",\"parents\":["@
            + json_string(parent) + "]}"@,
        create_folder_model(parent, name).method == Method::Post,
        create_folder_model(parent, name).url == "https://www.googleapis.com/drive/v3"@
            + "/files"@,
        create_folder_model(parent, name).body == Body::Json(
            "{\"mimeType\":"@ + json_string("application/vnd.google-apps.folder"@) + ",\"name\":"@
                + json_string(name) + ",\"parents\":["@ + json_string(parent) + "]}"@,
        ),
{
    assert(create_file_model(parent, name).query[0] == ("uploadType"@, "multipart"@));
}

/// A page of a listing is asked for with its query, and from its token on where there is one;
/// without a Shared Drive nothing is said of one.
pub proof fn law_listing_pages(q: Text, folder: Text, drive: Option<Text>, page: Text)
    ensures
        list_model(q, drive, Some(page)).query.contains(("q"@, q)),
        list_model(q, drive, None).query.contains(("q"@, q)),
        list_model(q, drive, Some(page)).query == list_model(q, drive, None).query.push(
            ("pageToken"@, page),
        ),
        list_model(q, None, None).query.len() == 5,
        children_query(folder) == "'"@ + folder + "' in parents and trashed = false"@,
        trash_query() == "trashed = true"@,
{
    assert(list_model(q, drive, Some(page)).query[0] == ("q"@, q));
    assert(list_model(q, drive, None).query[0] == ("q"@, q));
    assert(list_model(q, drive, Some(page)).query =~= list_model(q, drive, None).query.push(
        ("pageToken"@, page),
    ));
}

/// The parents of a file are listed in order with commas between them; one parent is itself, and
/// none is nothing.
pub proof fn law_parents_are_joined(v: Seq<Text>, last: Text)
    ensures
        comma_joined(Seq::<Text>::empty()) == Seq::<char>::empty(),
        comma_joined(seq![last]) == last,
        v.len() > 0 ==> comma_joined(v.push(last)) == comma_joined(v) + ","@ + last,
{
    assert(v.push(last).drop_last() =~= v);
}

/// A file's attributes: a folder is a directory that its owner may change and all may enter, and
/// all else is a regular file that its owner may change and all may read. The size is the number
/// that the API gives, or 0 where it gives none, the times are the time of the last change, and
/// the owner is the user of the mount.
pub proof fn law_file_attributes(f: FileModel, uid: u32, gid: u32, n: u64)
    ensures
        ({
            let st = f.stat(uid, gid);
            &&& f.mime_type == "application/vnd.google-apps.folder"@ ==> st.perm == 0o040755
            &&& f.mime_type != "application/vnd.google-apps.folder"@ ==> st.perm == 0o100644
            &&& st.uid == uid && st.gid == gid
            &&& st.atime == st.mtime
            &&& f.size is None ==> st.size == 0
            &&& f.size == Some(decimal(n as int)) ==> st.size == n && f.size_bytes() == n
            &&& f.modified_time is None ==> st.mtime == 0
            &&& f.modified_time matches Some(t) ==> match instant(t) {
                Some(secs) => 0 <= secs <= u64::MAX ==> st.mtime == secs,
                None => st.mtime == 0,
            }
            &&& f.is_native() == (f.size is None && f.mime_type
                != "application/vnd.google-apps.folder"@)
        }),
{
    lemma_decimal_reads_back(n as int);
    assert(is_digit(decimal(n as int)[0]));
}

/// Every change of a file is asked for with support of all drives.
pub proof fn law_changes_support_all_drives(id: Text, a: Text, b: Text, c: Text)
    ensures
        create_file_model(a, b).query.contains(("supportsAllDrives"@, "true"@)),
        create_folder_model(a, b).query.contains(("supportsAllDrives"@, "true"@)),
        trash_model(id).query.contains(("supportsAllDrives"@, "true"@)),
        restore_model(id, a, b, c).query.contains(("supportsAllDrives"@, "true"@)),
        delete_model(id).query.contains(("supportsAllDrives"@, "true"@)),
        rename_model(id, a, b, c).query.contains(("supportsAllDrives"@, "true"@)),
{
    assert(create_file_model(a, b).query[2] == ("supportsAllDrives"@, "true"@));
    assert(create_folder_model(a, b).query[1] == ("supportsAllDrives"@, "true"@));
    assert(trash_model(id).query[0] == ("supportsAllDrives"@, "true"@));
    assert(restore_model(id, a, b, c).query[0] == ("supportsAllDrives"@, "true"@));
    assert(delete_model(id).query[0] == ("supportsAllDrives"@, "true"@));
    assert(rename_model(id, a, b, c).query[0] == ("supportsAllDrives"@, "true"@));
}

} // verus!
