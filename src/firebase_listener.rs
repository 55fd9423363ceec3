//! Values exchanged with the remote item source: items, users, change-feed
//! updates, and the errors of talking to it.

use vstd::prelude::*;

verus! {

#[verifier::external_type_specification]
#[verifier::external_body]
pub struct ExFirebase(firebase_rs::Firebase);

#[verifier::external_type_specification]
#[verifier::external_body]
pub struct ExUrlParseError(firebase_rs::UrlParseError);

#[verifier::external_type_specification]
#[verifier::external_body]
pub struct ExHttpClient(reqwest::Client);

/// Whether `firebase_rs::Firebase::new` accepts `url` as the root of a
/// database: it parses as a URL with the `https` scheme.
pub uninterp spec fn firebase_url_accepted(url: Seq<char>) -> bool;

/// Relies on `firebase_rs::Firebase::new`: it parses the URL and accepts it
/// exactly when it has the `https` scheme, deciding from the text alone.
#[verifier::external_body]
fn open_firebase(url: &str) -> (r: Result<firebase_rs::Firebase, firebase_rs::UrlParseError>)
    ensures
        r is Ok <==> firebase_url_accepted(url@),
{
    firebase_rs::Firebase::new(url)
}

/// Relies on `reqwest::ClientBuilder::build` (on `reqwest::Client::builder()`):
/// it returns an HTTP client, or `None` where the TLS backend or the system
/// resolver configuration cannot be set up.
#[verifier::external_body]
fn build_http_client() -> (r: Option<reqwest::Client>) {
    reqwest::Client::builder().build().ok()
}

/// An item as the remote source serves it.
#[derive(Debug, Clone, PartialEq)]
pub struct Item {
    pub id: i64,
    pub deleted: Option<bool>,
    pub type_: Option<String>,
    pub by: Option<String>,
    pub time: Option<i64>,
    pub text: Option<String>,
    pub dead: Option<bool>,
    pub parent: Option<i64>,
    pub poll: Option<i64>,
    pub url: Option<String>,
    pub score: Option<i64>,
    pub title: Option<String>,
    pub parts: Option<String>,
    pub descendants: Option<i64>,
    pub kids: Option<Vec<i64>>,
}

/// Payload of a change-feed event: the ids of changed items and the names of
/// changed profiles.
#[derive(Debug, Clone, PartialEq)]
pub struct UpdateData {
    pub items: Option<Vec<i64>>,
    pub profiles: Option<Vec<String>>,
}

/// One decoded change-feed event.
#[derive(Debug, Clone, PartialEq)]
pub struct Update {
    pub path: String,
    pub data: UpdateData,
}

/// A user profile as the remote source serves it.
#[derive(Debug, Clone, PartialEq)]
pub struct User {
    pub id: String,
    pub created: Option<i64>,
    pub karma: Option<i64>,
    pub about: Option<String>,
    pub submitted: Option<Vec<i64>>,
}

/// A client of the remote item source rooted at one base URL.
pub struct FirebaseListener {
    firebase: firebase_rs::Firebase,
    client: reqwest::Client,
    base_url: String,
}

impl FirebaseListener {
    pub closed spec fn spec_base_url(&self) -> Seq<char> {
        self.base_url@
    }

    /// A client for the source at `url`. A URL that the realtime database
    /// client does not accept (one that is not `https`) is refused with a
    /// `ConnectError` naming it. An accepted URL gives a client unless the
    /// HTTP client cannot be set up on this machine, which is reported as a
    /// `ConnectError` of its own.
    pub fn new(url: String) -> (r: Result<FirebaseListener, FirebaseListenerErr>)
        ensures
            !firebase_url_accepted(url@) ==> (r matches Err(FirebaseListenerErr::ConnectError(m))
                && m@ == "Could not connect to URL "@ + url@),
            r matches Ok(listener) ==> firebase_url_accepted(url@) && listener.spec_base_url()
                == url@,
            firebase_url_accepted(url@) ==> (r is Ok || (r matches Err(
                FirebaseListenerErr::ConnectError(m),
            ) && m@ == "Could not set up an HTTP client for "@ + url@)),
            r matches Err(e) ==> e is ConnectError,
    {
        let firebase = match open_firebase(url.as_str()) {
            Ok(f) => f,
            Err(_) => {
                return Err(
                    FirebaseListenerErr::ConnectError(
                        String::from_str("Could not connect to URL ").concat(url.as_str()),
                    ),
                );
            },
        };
        let client = match build_http_client() {
            Some(c) => c,
            None => {
                return Err(
                    FirebaseListenerErr::ConnectError(
                        String::from_str("Could not set up an HTTP client for ").concat(
                            url.as_str(),
                        ),
                    ),
                );
            },
        };
        Ok(FirebaseListener { firebase, client, base_url: url })
    }

    /// The database client, for the reads and the change-feed subscription.
    pub fn firebase(&self) -> &firebase_rs::Firebase {
        &self.firebase
    }

    /// The HTTP client, for item reads.
    pub fn client(&self) -> &reqwest::Client {
        &self.client
    }

    /// The base URL the client was made for.
    pub fn base_url(&self) -> (r: &str)
        ensures
            r@ == self.spec_base_url(),
    {
        self.base_url.as_str()
    }
}

/// The kind of a failure, independent of any message text.
#[derive(Debug, Clone, Copy, PartialEq, Eq, Structural)]
pub enum ErrorKind {
    /// The remote source or the store could not be reached, or answered
    /// with a failure status.
    Connect,
    /// A payload did not have the expected shape.
    Parse,
    /// A changed id could not be handed downstream: the receiver is gone.
    Forward,
    /// The store rejected a write.
    Store,
}

/// Failures of talking to the remote item source.
#[derive(Debug, PartialEq)]
pub enum FirebaseListenerErr {
    ConnectError(String),
    ParseError(String),
    /// The id that could not be forwarded.
    ChannelError(i64),
}

impl FirebaseListenerErr {
    pub open spec fn spec_kind(&self) -> ErrorKind {
        match self {
            FirebaseListenerErr::ConnectError(_) => ErrorKind::Connect,
            FirebaseListenerErr::ParseError(_) => ErrorKind::Parse,
            FirebaseListenerErr::ChannelError(_) => ErrorKind::Forward,
        }
    }

    /// The failure as text: its kind, then what went wrong.
    pub fn describe(&self) -> (r: String)
        ensures
            r@ == match self {
                FirebaseListenerErr::ConnectError(m) => "ConnectError: "@ + m@,
                FirebaseListenerErr::ParseError(m) => "ParseError: "@ + m@,
                FirebaseListenerErr::ChannelError(_) => "ChannelError: sending on a closed channel"@,
            },
    {
        match self {
            FirebaseListenerErr::ConnectError(m) => String::from_str("ConnectError: ").concat(
                m.as_str(),
            ),
            FirebaseListenerErr::ParseError(m) => String::from_str("ParseError: ").concat(
                m.as_str(),
            ),
            FirebaseListenerErr::ChannelError(_) => String::from_str(
                "ChannelError: sending on a closed channel",
            ),
        }
    }

    /// A copy of this failure.
    pub fn duplicate(&self) -> (r: FirebaseListenerErr)
        ensures
            r == *self,
    {
        match self {
            FirebaseListenerErr::ConnectError(m) => FirebaseListenerErr::ConnectError(m.clone()),
            FirebaseListenerErr::ParseError(m) => FirebaseListenerErr::ParseError(m.clone()),
            FirebaseListenerErr::ChannelError(id) => FirebaseListenerErr::ChannelError(*id),
        }
    }

    /// The kind of this failure.
    #[verifier::when_used_as_spec(spec_kind)]
    pub fn kind(&self) -> (k: ErrorKind)
        ensures
            k == self.spec_kind(),
    {
        match self {
            FirebaseListenerErr::ConnectError(_) => ErrorKind::Connect,
            FirebaseListenerErr::ParseError(_) => ErrorKind::Parse,
            FirebaseListenerErr::ChannelError(_) => ErrorKind::Forward,
        }
    }
}

} // verus!
