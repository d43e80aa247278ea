use vstd::prelude::*;

verus! {

/// A failure of the transport that is not an error of the service's own.
#[derive(Clone, Debug)]
pub struct HttpError {
    description: String,
}

impl HttpError {
    pub fn new(s: &str) -> (e: Self)
        ensures
            e.description()@ == s@,
    {
        HttpError { description: String::from_str(s) }
    }

    pub closed spec fn description(&self) -> String {
        self.description
    }

    /// The error as it is shown to the user.
    pub fn message(&self) -> (r: String)
        ensures
            r@ == "Http Error: "@ + self.description()@,
    {
        String::from_str("Http Error: ").concat(self.description.as_str())
    }
}

/// The envelope of every answer of the service.
#[derive(Clone, Debug)]
pub struct RpcResponse<T> {
    pub arguments: T,
    pub result: String,
}

/// One file of a torrent.
#[derive(Clone, Debug)]
pub struct File {
    pub name: String,
    pub length: u64,
    pub bytes_completed: u64,
}

/// Download settings and progress of one file of a torrent.
#[derive(Clone, Copy, Debug, PartialEq, Eq, Structural)]
pub struct FileStats {
    pub wanted: bool,
    pub priority: i8,
    pub bytes_completed: u64,
}

/// What a tracker last reported.
#[derive(Clone, Debug)]
pub struct TrackerStats {
    pub leecher_count: i64,
    pub id: u64,
    pub host: String,
    pub scrape: String,
    pub seeder_count: i64,
    pub last_announce_peer_count: u64,
    pub last_announce_result: String,
    pub last_announce_time: u64,
}

/// A tracker of a torrent.
#[derive(Clone, Debug)]
pub struct Tracker {
    pub id: u64,
    pub announce: String,
    pub scrape: String,
    pub tier: u64,
}

/// What `base64::encode` makes of the UTF-8 bytes of a text.
pub uninterp spec fn base64_of(s: Seq<char>) -> Seq<char>;

/// Relies on base64::encode: the standard alphabet with padding, a function
/// of the input bytes alone.
#[verifier::external_body]
fn encode_base64(s: &str) -> (r: String)
    ensures
        r@ == base64_of(s@),
{
    base64::encode(s.as_bytes())
}

/// The Authorization header value for basic authentication: none without a
/// user name, else `Basic ` and the base64 form of `user:password`.
pub fn auth_header(username: &str, password: &str) -> (r: Option<String>)
    ensures
        username@.len() == 0 ==> r is None,
        username@.len() > 0 ==> (r matches Some(h) && h@ == "Basic "@ + base64_of(username@ + ":"@ + password@)),
{
    if username.unicode_len() == 0 {
        return None;
    }
    let credentials = String::from_str(username).concat(":").concat(password);
    let encoded = encode_base64(credentials.as_str());
    Some(String::from_str("Basic ").concat(encoded.as_str()))
}

} // verus!
