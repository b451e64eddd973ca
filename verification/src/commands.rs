//! What a caller asks for: the parameters of a timeline request, the
//! messages of the reader, and the choice of credentials.

use vstd::prelude::*;
use vstd::string::{StrSliceExecFns, StringExecFns};

verus! {

/// The ranking the timeline is asked for.
pub const ALGORITHM: &'static str = "reverse-chronological";

/// How many entries one page of the remote timeline is asked to hold.
pub const PAGE_LIMIT: u8 = 10;

/// Tells whether two texts are the same.
pub fn same_text(a: &str, b: &str) -> (r: bool)
    ensures
        r == (a@ == b@),
{
    a.to_owned() == b.to_owned()
}

/// The parameters of a request for a page of the remote timeline.
#[derive(Clone, Debug)]
pub struct GetTimelineArgs {
    pub algorithm: String,
    pub cursor: Option<String>,
    pub limit: u8,
}

impl GetTimelineArgs {
    /// Whether this asks for a page of [`PAGE_LIMIT`] entries in
    /// reverse-chronological ranking, starting at the token `cursor`.
    pub open spec fn asks_from(self, cursor: Option<Seq<char>>) -> bool {
        &&& self.algorithm@ == ALGORITHM@
        &&& self.limit == PAGE_LIMIT
        &&& match cursor {
            Some(token) => self.cursor matches Some(c) && c@ == token,
            None => self.cursor is None,
        }
    }

    /// The request for a page that starts at `cursor`, or for the most
    /// recent page where there is none.
    pub fn starting_at(cursor: Option<String>) -> (r: GetTimelineArgs)
        ensures
            r.asks_from(
                match cursor {
                    Some(c) => Some(c@),
                    None => None,
                },
            ),
            r.cursor == cursor,
    {
        GetTimelineArgs { algorithm: ALGORITHM.to_owned(), cursor, limit: PAGE_LIMIT }
    }
}

/// How a caller wants to log in.
#[derive(Clone, Debug)]
pub struct LoginArgs {
    pub from_env: bool,
    pub identifier: Option<String>,
    pub password: Option<String>,
}

/// Where the credentials of a login come from.
#[derive(Clone, Debug)]
pub enum Credentials {
    /// They are read from the environment.
    FromEnvironment,
    /// They were given with the request.
    Given { identifier: String, password: String },
    /// The request names no usable credentials.
    Missing,
}

impl LoginArgs {
    /// Chooses the credentials of a login: the environment where the
    /// request asks for it, else the identifier and password where both
    /// were given.
    pub fn credentials(self) -> (r: Credentials)
        ensures
            r == match (self.from_env, self.identifier, self.password) {
                (true, _, _) => Credentials::FromEnvironment,
                (false, Some(identifier), Some(password)) => Credentials::Given {
                    identifier,
                    password,
                },
                _ => Credentials::Missing,
            },
    {
        if self.from_env {
            return Credentials::FromEnvironment;
        }
        match (self.identifier, self.password) {
            (Some(identifier), Some(password)) => Credentials::Given { identifier, password },
            _ => Credentials::Missing,
        }
    }
}

/// How the address of a record begins.
pub const AT_PREFIX: &'static str = "at://did:plc:";

/// How the identifier of a repository begins.
pub const DID_PREFIX: &'static str = "did:plc:";

/// What is said of an address that does not begin as it must.
pub const PREFIX_MISSING: &'static str = "record uri must start with \"at://did:plc:\"";

/// What is said of an address that names no collection or no record.
pub const PARTS_MISSING: &'static str = "record uri must name a collection and a record key";

/// The address of a record: the repository it is in, the collection, and
/// the key of the record.
#[derive(Clone, Debug)]
pub struct AtUri {
    pub did: String,
    pub collection: String,
    pub rkey: String,
}

/// The index of the first `/` of `s` at `from` or behind it; the length of
/// `s` where there is none.
pub open spec fn slash_from(s: Seq<char>, from: int) -> int
    decreases s.len() - from,
{
    if from < 0 || from >= s.len() {
        s.len() as int
    } else if s[from] == '/' {
        from
    } else {
        slash_from(s, from + 1)
    }
}

/// Whether `s` begins with `prefix`.
pub open spec fn begins_with(s: Seq<char>, prefix: Seq<char>) -> bool {
    prefix.len() <= s.len() && s.take(prefix.len() as int) == prefix
}

/// Whether `s` is the address of a record: it begins with [`AT_PREFIX`],
/// and two `/` follow, which part the repository, the collection and the
/// record key.
pub open spec fn is_record_address(s: Seq<char>) -> bool {
    &&& begins_with(s, AT_PREFIX@)
    &&& slash_from(s, AT_PREFIX@.len() as int) < s.len()
    &&& slash_from(s, slash_from(s, AT_PREFIX@.len() as int) + 1) < s.len()
}

impl AtUri {
    /// Whether this is the address that `s` spells: the repository is what
    /// stands between the prefix and the first `/`, behind [`DID_PREFIX`];
    /// the collection is what stands between the first `/` and the second;
    /// and the record key is all that follows.
    pub open spec fn spelled_by(self, s: Seq<char>) -> bool {
        let start = AT_PREFIX@.len() as int;
        let first = slash_from(s, start);
        let second = slash_from(s, first + 1);
        &&& self.did@ == DID_PREFIX@ + s.subrange(start, first)
        &&& self.collection@ == s.subrange(first + 1, second)
        &&& self.rkey@ == s.subrange(second + 1, s.len() as int)
    }

    /// The address written out.
    pub open spec fn text(self) -> Seq<char> {
        "at://"@ + self.did@ + "/"@ + self.collection@ + "/"@ + self.rkey@
    }

    /// Reads the address of a record. An address that does not begin with
    /// [`AT_PREFIX`] is refused with [`PREFIX_MISSING`], and one that names
    /// no collection or no record key with [`PARTS_MISSING`].
    pub fn parse(s: &str) -> (r: Result<AtUri, String>)
        ensures
            r is Ok == is_record_address(s@),
            r matches Ok(uri) ==> uri.spelled_by(s@),
            r matches Err(e) ==> e@ == if begins_with(s@, AT_PREFIX@) {
                PARTS_MISSING@
            } else {
                PREFIX_MISSING@
            },
    {
        proof {
            reveal_strlit("at://did:plc:");
        }
        let n = s.unicode_len();
        let start: usize = 13;
        if n < start || !same_text(s.substring_char(0, start), AT_PREFIX) {
            return Err(PREFIX_MISSING.to_owned());
        }
        let first = find_slash(s, n, start);
        if first >= n {
            return Err(PARTS_MISSING.to_owned());
        }
        let second = find_slash(s, n, first + 1);
        if second >= n {
            return Err(PARTS_MISSING.to_owned());
        }
        let mut did = DID_PREFIX.to_owned();
        did.append(s.substring_char(start, first));
        Ok(
            AtUri {
                did,
                collection: String::from_str(s.substring_char(first + 1, second)),
                rkey: String::from_str(s.substring_char(second + 1, n)),
            },
        )
    }

    /// Writes the address out.
    pub fn to_string(&self) -> (r: String)
        ensures
            r@ == self.text(),
    {
        let mut out = "at://".to_owned();
        out.append(self.did.as_str());
        out.append("/");
        out.append(self.collection.as_str());
        out.append("/");
        out.append(self.rkey.as_str());
        out
    }
}

/// Finds the first `/` of `s` at `from` or behind it; `n` is the length of `s`.
fn find_slash(s: &str, n: usize, from: usize) -> (r: usize)
    requires
        n == s@.len(),
        from <= n,
    ensures
        r == slash_from(s@, from as int),
        from <= r <= n,
{
    let mut i: usize = from;
    while i < n && s.get_char(i) != '/'
        invariant
            from <= i <= n,
            n == s@.len(),
            slash_from(s@, from as int) == slash_from(s@, i as int),
        decreases n - i,
    {
        i += 1;
    }
    i
}

impl std::str::FromStr for AtUri {
    type Err = String;

    /// Reads the address of a record, as [`AtUri::parse`] does: an address
    /// that does not begin with [`AT_PREFIX`] is refused with
    /// [`PREFIX_MISSING`], and one that names no collection or no record key
    /// with [`PARTS_MISSING`].
    fn from_str(s: &str) -> (r: Result<AtUri, String>)
        ensures
            r is Ok == is_record_address(s@),
            r matches Ok(uri) ==> uri.spelled_by(s@),
            r matches Err(e) ==> e@ == if begins_with(s@, AT_PREFIX@) {
                PARTS_MISSING@
            } else {
                PREFIX_MISSING@
            },
    {
        AtUri::parse(s)
    }
}

/// What the reader may send.
#[derive(Clone, Debug)]
pub enum Messages {
    Read,
    Update,
    Post,
    RePost,
    Like,
    UnLike,
    FetchMore,
    Refresh,
    Unknown(String),
}

/// The message a request's name stands for; a name that stands for none is
/// kept in `Unknown`.
pub open spec fn request_named(name: Seq<char>, m: Messages) -> bool {
    if name == "read"@ {
        m is Read
    } else if name == "post"@ {
        m is Post
    } else if name == "update"@ {
        m is Update
    } else if name == "repost"@ {
        m is RePost
    } else if name == "like"@ {
        m is Like
    } else if name == "more"@ {
        m is FetchMore
    } else if name == "refresh"@ {
        m is Refresh
    } else {
        m matches Messages::Unknown(s) && s@ == name
    }
}

/// The message an event's name stands for; a name that stands for none is
/// kept in `Unknown`. The empty name asks for a refresh.
pub open spec fn event_named(name: Seq<char>, m: Messages) -> bool {
    if name == "read"@ {
        m is Read
    } else if name == "post"@ {
        m is Post
    } else if name == "update"@ {
        m is Update
    } else if name == "repost"@ {
        m is RePost
    } else if name == "like"@ {
        m is Like
    } else if name == "unlike"@ {
        m is UnLike
    } else if name == "more"@ {
        m is FetchMore
    } else if name == ""@ {
        m is Refresh
    } else {
        m matches Messages::Unknown(s) && s@ == name
    }
}

impl Messages {
    /// Reads the name of a request.
    pub fn from_request(name: &str) -> (r: Messages)
        ensures
            request_named(name@, r),
    {
        if same_text(name, "read") {
            Messages::Read
        } else if same_text(name, "post") {
            Messages::Post
        } else if same_text(name, "update") {
            Messages::Update
        } else if same_text(name, "repost") {
            Messages::RePost
        } else if same_text(name, "like") {
            Messages::Like
        } else if same_text(name, "more") {
            Messages::FetchMore
        } else if same_text(name, "refresh") {
            Messages::Refresh
        } else {
            Messages::Unknown(name.to_owned())
        }
    }

    /// Reads the name of an event.
    pub fn from_event(event: String) -> (r: Messages)
        ensures
            event_named(event@, r),
    {
        let name = event.as_str();
        if same_text(name, "read") {
            Messages::Read
        } else if same_text(name, "post") {
            Messages::Post
        } else if same_text(name, "update") {
            Messages::Update
        } else if same_text(name, "repost") {
            Messages::RePost
        } else if same_text(name, "like") {
            Messages::Like
        } else if same_text(name, "unlike") {
            Messages::UnLike
        } else if same_text(name, "more") {
            Messages::FetchMore
        } else if same_text(name, "") {
            Messages::Refresh
        } else {
            Messages::Unknown(event)
        }
    }
}

} // verus!
