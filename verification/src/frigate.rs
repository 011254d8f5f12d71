//! A Frigate server: what a client asks of it, and what it makes of the replies.

use vstd::prelude::*;

use crate::bytes::{PublicKey, SecretKey, Txid};
use crate::text::{contains, law_occurs_in, made_of, occurs_at, occurs_in};
use crate::time::Duration;

verus! {

#[verifier::external_type_specification]
#[verifier::external_body]
pub struct ExRpcError(jsonrpc::Error);

#[verifier::external_type_specification]
#[verifier::external_body]
pub struct ExUrlError(url::ParseError);

#[verifier::external_type_specification]
#[verifier::external_body]
pub struct ExIoError(std::io::Error);

/// What stands in for the coinbase of a block that is put together from a header and the
/// transactions of interest.
pub const DUMMY_COINBASE: &'static str = "01000000010000000000000000000000000000000000000000000000000000000000000000ffffffff1b03951a0604f15ccf5609013803062b9b5a0100072f425443432f20000000000000000000";

#[derive(Debug)]
pub enum FrigateError {
    JsonRpc(jsonrpc::Error),
    ParseUrl(url::ParseError),
    Serde(serde_json::Error),
    Generic(String),
}

impl From<serde_json::Error> for FrigateError {
    fn from(value: serde_json::Error) -> (r: Self) {
        FrigateError::Serde(value)
    }
}

impl vstd::std_specs::convert::FromSpecImpl<serde_json::Error> for FrigateError {
    open spec fn obeys_from_spec() -> bool {
        true
    }

    open spec fn from_spec(value: serde_json::Error) -> Self {
        FrigateError::Serde(value)
    }
}

impl From<url::ParseError> for FrigateError {
    fn from(value: url::ParseError) -> (r: Self) {
        FrigateError::ParseUrl(value)
    }
}

impl vstd::std_specs::convert::FromSpecImpl<url::ParseError> for FrigateError {
    open spec fn obeys_from_spec() -> bool {
        true
    }

    open spec fn from_spec(value: url::ParseError) -> Self {
        FrigateError::ParseUrl(value)
    }
}

impl From<jsonrpc::Error> for FrigateError {
    fn from(value: jsonrpc::Error) -> (r: Self) {
        FrigateError::JsonRpc(value)
    }
}

impl vstd::std_specs::convert::FromSpecImpl<jsonrpc::Error> for FrigateError {
    open spec fn obeys_from_spec() -> bool {
        true
    }

    open spec fn from_spec(value: jsonrpc::Error) -> Self {
        FrigateError::JsonRpc(value)
    }
}

/// `Debug` of `std::io::Error`; the text rests on the operating system, and nothing is
/// claimed of it. It is public so that contracts can speak of what it returned.
#[verifier::external_body]
pub fn io_error_text(error: std::io::Error) -> (r: String) {
    format!("{:?}", error)
}

/// The error for a failure of input or output, once its text is known.
pub fn io_failure(text: &str) -> (r: FrigateError)
    ensures
        r matches FrigateError::Generic(m) && m@ == "Generic error "@ + text@,
{
    let mut message: String = "Generic error ".to_string();
    message.append(text);
    FrigateError::Generic(message)
}

impl From<std::io::Error> for FrigateError {
    fn from(value: std::io::Error) -> (r: Self)
        ensures
            r matches FrigateError::Generic(m) && exists|text: String| #[trigger]
                call_ensures(crate::frigate::io_error_text, (value,), text) && m@
                    == "Generic error "@ + text@,
    {
        let text: String = io_error_text(value);
        proof {
            assert(call_ensures(crate::frigate::io_error_text, (value,), text));
        }
        io_failure(text.as_str())
    }
}

impl vstd::std_specs::convert::FromSpecImpl<std::io::Error> for FrigateError {
    open spec fn obeys_from_spec() -> bool {
        false
    }

    open spec fn from_spec(value: std::io::Error) -> Self {
        arbitrary()
    }
}

impl FrigateError {
    /// The text that is shown for the error.
    pub open spec fn text(self) -> Seq<char> {
        match self {
            FrigateError::Generic(message) => message@,
            _ => "Something wrong happened"@,
        }
    }

    pub fn fmt(&self) -> (r: String)
        ensures
            r@ == self.text(),
    {
        match self {
            FrigateError::Generic(message) => message.clone(),
            _ => "Something wrong happened".to_string(),
        }
    }

    /// Whether the error is that something took too long.
    pub fn is_timeout(&self) -> (r: bool)
        ensures
            r == occurs_in(self.text(), "timed out"@),
    {
        contains(self.fmt().as_str(), "timed out")
    }
}

/// A transaction that pays the wallet, with the key from which its outputs are found; it
/// is not in a block yet if its height is zero.
#[derive(Clone, Copy, Debug, PartialEq, Eq)]
pub struct History {
    pub height: u32,
    pub tx_hash: Txid,
    pub tweak_key: PublicKey,
}

#[derive(Clone, Debug, PartialEq, Eq)]
pub struct SubscribeRequest {
    pub scan_priv_key: SecretKey,
    pub spend_pub_key: PublicKey,
    pub start_height: Option<u32>,
    pub labels: Option<Vec<u32>>,
}

#[derive(Clone, Copy, Debug, PartialEq, Eq)]
pub struct UnsubscribeRequest {
    pub scan_priv_key: SecretKey,
    pub spend_pub_key: PublicKey,
}

/// What is asked of the server.
#[derive(Clone, Debug, PartialEq, Eq)]
pub enum Request {
    Header { height: u32 },
    GetTx { txid: Txid },
    ServerVersion { client_name: String, min_protocol: String, max_protocol: String },
    SpSubscribe {
        scan_priv_key: SecretKey,
        spend_pub_key: PublicKey,
        labels: Option<Vec<u32>>,
        start_height: Option<u32>,
    },
    SpUnsubscribe { scan_priv_key: SecretKey, spend_pub_key: PublicKey },
}

/// What became of a request.
pub enum Outcome<T> {
    /// No answer came within the time that was given.
    TimedOut,
    /// The request failed, with the text of the error.
    Failed(String),
    Answered(T),
}

/// A request to send, and how long to wait for the answer.
#[derive(Clone, Debug, PartialEq, Eq)]
pub struct Call {
    pub request: Request,
    pub timeout: Duration,
}

/// The answer to a version request.
#[derive(Clone, Debug, PartialEq, Eq)]
pub struct ServerVersion {
    pub server_software: String,
    pub protocol_version: String,
}

/// What a client knows of its server.
#[derive(Clone, Debug, PartialEq, Eq)]
pub struct FrigateClient {
    pub host_url: String,
    pub request_timeout: Duration,
}

pub open spec fn labels_view(labels: Option<Vec<u32>>) -> Option<Seq<u32>> {
    match labels {
        Some(v) => Some(v@),
        None => None,
    }
}

fn copy_labels(labels: &Option<Vec<u32>>) -> (r: Option<Vec<u32>>)
    ensures
        labels_view(r) == labels_view(*labels),
{
    match labels {
        Some(v) => {
            let copy: Vec<u32> = v.clone();
            proof {
                assert(copy@ =~= v@);
            }
            Some(copy)
        },
        None => None,
    }
}

impl Request {
    /// The message when no answer to the request came in time.
    pub open spec fn timeout_text(self) -> Seq<char> {
        match self {
            Request::Header { .. } => "Header request timed out"@,
            Request::GetTx { .. } => "GetTx request timed out"@,
            Request::ServerVersion { .. } => "Version request timed out"@,
            Request::SpSubscribe { .. } => "Subscribe request timed out"@,
            Request::SpUnsubscribe { .. } => "Unsubscribe request timed out"@,
        }
    }

    fn timeout_message(&self) -> (r: String)
        ensures
            r@ == self.timeout_text(),
    {
        match self {
            Request::Header { .. } => "Header request timed out".to_string(),
            Request::GetTx { .. } => "GetTx request timed out".to_string(),
            Request::ServerVersion { .. } => "Version request timed out".to_string(),
            Request::SpSubscribe { .. } => "Subscribe request timed out".to_string(),
            Request::SpUnsubscribe { .. } => "Unsubscribe request timed out".to_string(),
        }
    }
}

impl Call {
    /// The answer to the call, or why there is none.
    pub fn complete<T>(&self, outcome: Outcome<T>) -> (r: Result<T, FrigateError>)
        ensures
            match outcome {
                Outcome::TimedOut => r matches Err(FrigateError::Generic(m)) && m@
                    == self.request.timeout_text(),
                Outcome::Failed(text) => r matches Err(FrigateError::Generic(m)) && m == text,
                Outcome::Answered(t) => r matches Ok(a) && a == t,
            },
    {
        match outcome {
            Outcome::TimedOut => Err(FrigateError::Generic(self.request.timeout_message())),
            Outcome::Failed(text) => Err(FrigateError::Generic(text)),
            Outcome::Answered(t) => Ok(t),
        }
    }
}

impl FrigateClient {
    /// The client for a server, if the attempt to connect to it succeeded.
    pub fn connect(host_url: &str, connected: bool) -> (r: Result<Self, FrigateError>)
        ensures
            connected ==> (r matches Ok(c) && c.host_url@ == host_url@ && c.request_timeout
                == (Duration { secs: 10, nanos: 0 })),
            !connected ==> (r matches Err(FrigateError::Generic(m)) && m@
                == "Can't connect to socket"@),
    {
        if connected {
            Ok(
                FrigateClient {
                    host_url: host_url.to_string(),
                    request_timeout: Duration::from_secs(10),
                },
            )
        } else {
            Err(FrigateError::Generic("Can't connect to socket".to_string()))
        }
    }

    /// Sets a custom request timeout for this client.
    pub fn with_timeout(self, timeout: Duration) -> (r: Self)
        ensures
            r.request_timeout == timeout,
            r.host_url == self.host_url,
    {
        FrigateClient { host_url: self.host_url, request_timeout: timeout }
    }

    /// Asks for the header of the block at a height.
    pub fn get_block_header(&self, height: u32) -> (r: Call)
        ensures
            r.timeout == self.request_timeout,
            r.request == (Request::Header { height }),
    {
        Call { request: Request::Header { height }, timeout: self.request_timeout }
    }

    /// Asks for a transaction.
    pub fn get_transaction(&self, txid: Txid) -> (r: Call)
        ensures
            r.timeout == self.request_timeout,
            r.request == (Request::GetTx { txid }),
    {
        Call { request: Request::GetTx { txid }, timeout: self.request_timeout }
    }

    /// Names the client and the protocol versions that it speaks, and asks for the one to
    /// use.
    pub fn version(&self) -> (r: Call)
        ensures
            r.timeout == self.request_timeout,
            r.request matches Request::ServerVersion { client_name, min_protocol, max_protocol }
                && client_name@ == "bdk-sp"@ && min_protocol@ == "1.4"@ && max_protocol@ == "1.6"@,
    {
        let request: Request = Request::ServerVersion {
            client_name: "bdk-sp".to_string(),
            min_protocol: "1.4".to_string(),
            max_protocol: "1.6".to_string(),
        };
        Call { request, timeout: self.request_timeout }
    }

    /// The protocol version that the server chose.
    pub fn version_reply(call: &Call, outcome: Outcome<ServerVersion>) -> (r: Result<
        String,
        FrigateError,
    >)
        ensures
            match outcome {
                Outcome::TimedOut => r matches Err(FrigateError::Generic(m)) && m@
                    == call.request.timeout_text(),
                Outcome::Failed(text) => r matches Err(FrigateError::Generic(m)) && m == text,
                Outcome::Answered(v) => r matches Ok(p) && p == v.protocol_version,
            },
    {
        match call.complete(outcome) {
            Ok(version) => Ok(version.protocol_version),
            Err(error) => Err(error),
        }
    }

    /// Asks to be told of the payments to a silent payment address.
    pub fn subscribe(&self, req: &SubscribeRequest) -> (r: Call)
        ensures
            r.timeout == self.request_timeout,
            r.request matches Request::SpSubscribe {
                scan_priv_key,
                spend_pub_key,
                labels,
                start_height,
            } && scan_priv_key == req.scan_priv_key && spend_pub_key == req.spend_pub_key
                && labels_view(labels) == labels_view(req.labels) && start_height
                == req.start_height,
    {
        let request: Request = Request::SpSubscribe {
            scan_priv_key: req.scan_priv_key,
            spend_pub_key: req.spend_pub_key,
            labels: copy_labels(&req.labels),
            start_height: req.start_height,
        };
        Call { request, timeout: self.request_timeout }
    }

    /// Asks not to be told any more.
    pub fn unsubscribe(&self, req: &UnsubscribeRequest) -> (r: Call)
        ensures
            r.timeout == self.request_timeout,
            r.request == (Request::SpUnsubscribe {
                scan_priv_key: req.scan_priv_key,
                spend_pub_key: req.spend_pub_key,
            }),
    {
        let request: Request = Request::SpUnsubscribe {
            scan_priv_key: req.scan_priv_key,
            spend_pub_key: req.spend_pub_key,
        };
        Call { request, timeout: self.request_timeout }
    }
}

/// Every request that times out ends in an error that is recognised as a timeout.
pub proof fn law_timeouts_are_recognised(request: Request, error: FrigateError)
    requires
        error matches FrigateError::Generic(message) && message@ == request.timeout_text(),
    ensures
        occurs_in(error.text(), "timed out"@),
{
    reveal_strlit("timed out");
    reveal_strlit("Header request timed out");
    reveal_strlit("GetTx request timed out");
    reveal_strlit("Version request timed out");
    reveal_strlit("Subscribe request timed out");
    reveal_strlit("Unsubscribe request timed out");
    let text = request.timeout_text();
    let at = text.len() - 9;
    assert(text.subrange(at, at + 9) =~= "timed out"@);
    assert(occurs_at(text, "timed out"@, at));
}

/// An error other than a generic one is never recognised as a timeout.
pub proof fn law_other_errors_are_no_timeouts(error: FrigateError)
    requires
        !(error is Generic),
    ensures
        !occurs_in(error.text(), "timed out"@),
{
    reveal_strlit("timed out");
    reveal_strlit("Something wrong happened");
    let text = error.text();
    assert forall|at: int| !occurs_at(text, "timed out"@, at) by {
        if occurs_at(text, "timed out"@, at) {
            assert(text.subrange(at, at + 9)[0] == 't');
            assert(text.subrange(at, at + 9)[1] == 'i');
            assert(text[at] == 't' && text[at + 1] == 'i');
        }
    }
}

/// A serde error is kept as it came.
pub proof fn law_from_serde(value: serde_json::Error, r: FrigateError)
    requires
        call_ensures(<FrigateError as From<serde_json::Error>>::from, (value,), r),
    ensures
        r == FrigateError::Serde(value),
{
}

/// An error in a URL is kept as it came.
pub proof fn law_from_url(value: url::ParseError, r: FrigateError)
    requires
        call_ensures(<FrigateError as From<url::ParseError>>::from, (value,), r),
    ensures
        r == FrigateError::ParseUrl(value),
{
}

/// An error of a remote call is kept as it came.
pub proof fn law_from_rpc(value: jsonrpc::Error, r: FrigateError)
    requires
        call_ensures(<FrigateError as From<jsonrpc::Error>>::from, (value,), r),
    ensures
        r == FrigateError::JsonRpc(value),
{
}

/// A failure of input or output becomes a message with the text of the failure.
pub proof fn law_from_io(value: std::io::Error, r: FrigateError)
    requires
        call_ensures(<FrigateError as From<std::io::Error>>::from, (value,), r),
    ensures
        r matches FrigateError::Generic(m) && exists|text: String| #[trigger]
            call_ensures(crate::frigate::io_error_text, (value,), text) && m@ == "Generic error "@
                + text@,
{
}

/// The message on a failure of input or output is a fixed beginning and the text.
pub proof fn law_io_failure(text: &str, r: FrigateError)
    requires
        call_ensures(io_failure, (text,), r),
    ensures
        r matches FrigateError::Generic(m) && m@ == "Generic error "@ + text@,
{
}

/// A generic error is shown as its message, and every other one in the same words.
pub proof fn law_fmt(error: FrigateError, r: String)
    requires
        call_ensures(FrigateError::fmt, (&error,), r),
    ensures
        r@ == error.text(),
        error matches FrigateError::Generic(message) ==> r@ == message@,
        !(error is Generic) ==> r@ == "Something wrong happened"@,
{
}

/// An error is a timeout if and only if it is generic and its message says somewhere that
/// something timed out.
pub proof fn law_is_timeout(error: FrigateError, r: bool)
    requires
        call_ensures(FrigateError::is_timeout, (&error,), r),
    ensures
        r <==> (error matches FrigateError::Generic(message) && exists|
            before: Seq<char>,
            after: Seq<char>,
        | #[trigger]
            made_of(message@, before, "timed out"@, after)),
{
    law_occurs_in(error.text(), "timed out"@);
    if !(error is Generic) {
        law_other_errors_are_no_timeouts(error);
    }
}

/// Every request that times out ends in an error that says which one it was, and that is
/// recognised as a timeout.
pub proof fn law_timed_out<T>(call: Call, r: Result<T, FrigateError>, timeout: bool)
    requires
        call_ensures(Call::complete::<T>, (&call, Outcome::TimedOut), r),
        r matches Err(error) && call_ensures(FrigateError::is_timeout, (&error,), timeout),
    ensures
        timeout,
        ({
            let text = match call.request {
                Request::Header { .. } => "Header request timed out"@,
                Request::GetTx { .. } => "GetTx request timed out"@,
                Request::ServerVersion { .. } => "Version request timed out"@,
                Request::SpSubscribe { .. } => "Subscribe request timed out"@,
                Request::SpUnsubscribe { .. } => "Unsubscribe request timed out"@,
            };
            r matches Err(FrigateError::Generic(m)) && m@ == text
        }),
{
    law_timeouts_are_recognised(call.request, r->Err_0);
}

/// A request that fails ends in an error with the text of the failure, and one that is answered
/// in the answer.
pub proof fn law_complete<T>(call: Call, outcome: Outcome<T>, r: Result<T, FrigateError>)
    requires
        call_ensures(Call::complete::<T>, (&call, outcome), r),
    ensures
        outcome matches Outcome::Failed(text) ==> (r matches Err(FrigateError::Generic(m)) && m
            == text),
        outcome matches Outcome::Answered(answer) ==> (r matches Ok(a) && a == answer),
{
}

/// A new client knows its server, and waits ten seconds for an answer; there is none where the
/// connection failed.
pub proof fn law_connect(host_url: &str, connected: bool, r: Result<FrigateClient, FrigateError>)
    requires
        call_ensures(FrigateClient::connect, (host_url, connected), r),
    ensures
        connected ==> (r matches Ok(c) && c.host_url@ == host_url@ && c.request_timeout.secs == 10
            && c.request_timeout.nanos == 0),
        !connected ==> (r matches Err(FrigateError::Generic(m)) && m@
            == "Can't connect to socket"@),
{
}

/// A client with another timeout is the same client but for the timeout.
pub proof fn law_with_timeout(client: FrigateClient, timeout: Duration, r: FrigateClient)
    requires
        call_ensures(FrigateClient::with_timeout, (client, timeout), r),
    ensures
        r.request_timeout == timeout,
        r.host_url == client.host_url,
{
}

/// The calls of a client ask for what they were given, and wait as long as the client does.
pub proof fn law_calls(
    client: FrigateClient,
    height: u32,
    txid: Txid,
    header: Call,
    transaction: Call,
    version: Call,
)
    requires
        call_ensures(FrigateClient::get_block_header, (&client, height), header),
        call_ensures(FrigateClient::get_transaction, (&client, txid), transaction),
        call_ensures(FrigateClient::version, (&client,), version),
    ensures
        header.timeout == client.request_timeout,
        transaction.timeout == client.request_timeout,
        version.timeout == client.request_timeout,
        header.request matches Request::Header { height: h } && h == height,
        transaction.request matches Request::GetTx { txid: t } && t == txid,
        version.request matches Request::ServerVersion { client_name, min_protocol, max_protocol }
            && client_name@ == "bdk-sp"@ && min_protocol@ == "1.4"@ && max_protocol@ == "1.6"@,
{
}

/// A subscription is asked for with the keys, the height and the labels of the request, and is
/// ended with the keys.
pub proof fn law_subscriptions(
    client: FrigateClient,
    begin: SubscribeRequest,
    end: UnsubscribeRequest,
    subscribe: Call,
    unsubscribe: Call,
)
    requires
        call_ensures(FrigateClient::subscribe, (&client, &begin), subscribe),
        call_ensures(FrigateClient::unsubscribe, (&client, &end), unsubscribe),
    ensures
        subscribe.timeout == client.request_timeout,
        unsubscribe.timeout == client.request_timeout,
        subscribe.request matches Request::SpSubscribe {
            scan_priv_key,
            spend_pub_key,
            labels,
            start_height,
        } && scan_priv_key == begin.scan_priv_key && spend_pub_key == begin.spend_pub_key
            && start_height == begin.start_height && (labels is Some <==> begin.labels is Some)
            && (labels matches Some(l) ==> begin.labels matches Some(b) && l@ == b@),
        unsubscribe.request matches Request::SpUnsubscribe { scan_priv_key, spend_pub_key }
            && scan_priv_key == end.scan_priv_key && spend_pub_key == end.spend_pub_key,
{
}

/// The version that a server answers with is the protocol's and not that of its software; other
/// outcomes are those of any call.
pub proof fn law_version_reply(
    call: Call,
    outcome: Outcome<ServerVersion>,
    r: Result<String, FrigateError>,
)
    requires
        call_ensures(FrigateClient::version_reply, (&call, outcome), r),
    ensures
        outcome matches Outcome::Answered(v) ==> (r matches Ok(p) && p == v.protocol_version),
        outcome matches Outcome::Failed(text) ==> (r matches Err(FrigateError::Generic(m)) && m
            == text),
        outcome is TimedOut && call.request is ServerVersion ==> (r matches Err(
            FrigateError::Generic(m),
        ) && m@ == "Version request timed out"@),
{
}

/// What stands in for a coinbase is this transaction, which spends no output and makes none.
pub proof fn law_dummy_coinbase()
    ensures
        DUMMY_COINBASE@
            == "01000000010000000000000000000000000000000000000000000000000000000000000000ffffffff1b03951a0604f15ccf5609013803062b9b5a0100072f425443432f20000000000000000000"@,
{
}

} // verus!
