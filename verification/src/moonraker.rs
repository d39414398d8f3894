//! Moonraker (Klipper print host) protocol: endpoint URLs, the WebSocket
//! address, the JSON-RPC subscription request, HTTP status checks and the
//! reading of the host's replies, with their defaults. The HTTP and
//! WebSocket traffic itself is carried by the caller.

use vstd::prelude::*;

use crate::errors::{concat2, decimal, decimal_text};
use crate::text::{chars_of, copy_range, string_of, strip_lit, strip_prefix};

verus! {

/// The Moonraker objects that are followed, in a stable order.
pub open spec fn spec_subscribed_objects() -> Seq<Seq<char>> {
    seq!["print_stats"@, "display_status"@, "extruder"@, "heater_bed"@]
}

/// The Moonraker objects that are followed: `print_stats`,
/// `display_status`, `extruder`, `heater_bed`.
pub fn subscribed_objects() -> (r: Vec<&'static str>)
    ensures
        r@.len() == 4,
        forall|i: int| 0 <= i < 4 ==> (#[trigger] r@[i])@ == spec_subscribed_objects()[i],
{
    let mut r: Vec<&'static str> = Vec::new();
    r.push("print_stats");
    r.push("display_status");
    r.push("extruder");
    r.push("heater_bed");
    r
}

/// Failure of a dialogue with Moonraker.
#[derive(Debug, Clone, PartialEq, Eq)]
pub enum MoonrakerError {
    /// Network failure (refused connection, timeout, DNS…), with its text.
    Network(String),
    /// Non-2xx HTTP status.
    Status(u16),
    /// Unreadable or unexpected reply body, with the reason.
    Decode(String),
}

impl MoonrakerError {
    /// Text of the error.
    pub open spec fn spec_message(self) -> Seq<char> {
        match self {
            MoonrakerError::Network(s) => "erreur réseau Moonraker : "@ + s@,
            MoonrakerError::Status(c) => "Moonraker a renvoyé le statut HTTP "@ + decimal(
                c as nat,
            ),
            MoonrakerError::Decode(s) => "réponse Moonraker illisible : "@ + s@,
        }
    }

    /// Text of the error, as shown to users.
    pub fn message(&self) -> (r: String)
        ensures
            r@ == self.spec_message(),
    {
        match self {
            MoonrakerError::Network(s) => concat2("erreur réseau Moonraker : ", s.as_str()),
            MoonrakerError::Status(c) => {
                let digits = string_of(&decimal_text(*c as u128));
                concat2("Moonraker a renvoyé le statut HTTP ", digits.as_str())
            },
            MoonrakerError::Decode(s) => concat2("réponse Moonraker illisible : ", s.as_str()),
        }
    }
}

/// State of the host reported by `GET /server/info` (connection test).
#[derive(Debug, Clone, PartialEq, Eq)]
pub struct ServerInfo {
    pub klippy_connected: bool,
    pub klippy_state: String,
    pub moonraker_version: String,
}

/// Result of a file upload (`POST /server/files/upload`).
#[derive(Debug, Clone, PartialEq, Eq)]
pub struct UploadResult {
    /// Path of the file as stored by Moonraker.
    pub path: String,
    /// Whether printing started at once.
    pub print_started: bool,
}

/// `s` without its trailing `/` characters (`str::trim_end_matches('/')`).
pub open spec fn without_trailing_slashes(s: Seq<char>) -> Seq<char>
    decreases s.len(),
{
    if s.len() > 0 && s.last() == '/' {
        without_trailing_slashes(s.drop_last())
    } else {
        s
    }
}

proof fn lemma_without_trailing_slashes(s: Seq<char>, k: int)
    requires
        0 <= k <= s.len(),
        forall|j: int| k <= j < s.len() ==> #[trigger] s[j] == '/',
        k == 0 || s[k - 1] != '/',
    ensures
        without_trailing_slashes(s) == s.take(k),
    decreases s.len() - k,
{
    if k == s.len() {
        assert(s.take(k) =~= s);
    } else {
        let t = s.drop_last();
        assert forall|j: int| k <= j < t.len() implies #[trigger] t[j] == '/' by {
            assert(t[j] == s[j]);
        }
        if k > 0 {
            assert(t[k - 1] == s[k - 1]);
        }
        lemma_without_trailing_slashes(t, k);
        assert(t.take(k) =~= s.take(k));
    }
}

/// The WebSocket address of a base URL: scheme `https` → `wss`, `http` →
/// `ws` (anything else kept), then `/websocket`.
pub open spec fn spec_websocket_url(base: Seq<char>) -> Seq<char> {
    let ws = match strip_prefix(base, "https://"@) {
        Some(rest) => "wss://"@ + rest,
        None => match strip_prefix(base, "http://"@) {
            Some(rest) => "ws://"@ + rest,
            None => base,
        },
    };
    ws + "/websocket"@
}

/// Address of one Moonraker instance: its base URL without trailing slash,
/// and its API key, sent in the `X-Api-Key` header when present.
#[derive(Debug, Clone, PartialEq, Eq)]
pub struct MoonrakerEndpoint {
    pub base_url: String,
    pub api_key: Option<String>,
}

impl MoonrakerEndpoint {
    /// Endpoint for the declared URL (trailing slashes removed) and key.
    pub fn new(base_url: &str, api_key: Option<String>) -> (r: Self)
        ensures
            r.base_url@ == without_trailing_slashes(base_url@),
            r.api_key == api_key,
    {
        let v = chars_of(base_url);
        let mut k = v.len();
        while k > 0 && v[k - 1] == '/'
            invariant
                k <= v.len(),
                forall|j: int| k <= j < v.len() ==> #[trigger] v@[j] == '/',
            decreases k,
        {
            k = k - 1;
        }
        proof {
            lemma_without_trailing_slashes(v@, k as int);
        }
        let kept = copy_range(&v, 0, k);
        assert(kept@ =~= v@.take(k as int));
        MoonrakerEndpoint { base_url: string_of(&kept), api_key }
    }

    /// Full URL of an API path.
    pub fn url(&self, path: &str) -> (r: String)
        ensures
            r@ == self.base_url@ + path@,
    {
        concat2(self.base_url.as_str(), path)
    }

    /// The WebSocket address derived from the base URL.
    pub fn websocket_url(&self) -> (r: String)
        ensures
            r@ == spec_websocket_url(self.base_url@),
    {
        let v = chars_of(self.base_url.as_str());
        let ws = match strip_lit(&v, "https://") {
            Some(rest) => concat2("wss://", string_of(&rest).as_str()),
            None => match strip_lit(&v, "http://") {
                Some(rest) => concat2("ws://", string_of(&rest).as_str()),
                None => self.base_url.clone(),
            },
        };
        concat2(ws.as_str(), "/websocket")
    }
}

/// An HTTP status counts as success when it is in `200..=299`.
pub fn check_status(status: u16) -> (r: Result<(), MoonrakerError>)
    ensures
        (200 <= status <= 299) ==> r is Ok,
        !(200 <= status <= 299) ==> r == Err::<(), MoonrakerError>(MoonrakerError::Status(status)),
{
    if 200 <= status && status <= 299 {
        Ok(())
    } else {
        Err(MoonrakerError::Status(status))
    }
}

/// Fields of the `result` object of a `GET /server/info` reply, as read by
/// the caller (`None` for a field that is absent or of another type).
#[derive(Debug, Clone, PartialEq, Eq)]
pub struct ServerInfoFields {
    pub klippy_connected: Option<bool>,
    pub klippy_state: Option<String>,
    pub moonraker_version: Option<String>,
}

/// Reads a `GET /server/info` reply: without a `result` object the reply is
/// undecodable; otherwise absent fields default to `false` and empty text.
pub fn server_info_from(result: Option<ServerInfoFields>) -> (r: Result<ServerInfo, MoonrakerError>)
    ensures
        match result {
            None => r matches Err(MoonrakerError::Decode(s)) && s@ == "champ `result` absent"@,
            Some(f) => r matches Ok(info) && info.klippy_connected == (match f.klippy_connected {
                Some(b) => b,
                None => false,
            }) && info.klippy_state@ == (match f.klippy_state {
                Some(s) => s@,
                None => Seq::<char>::empty(),
            }) && info.moonraker_version@ == (match f.moonraker_version {
                Some(s) => s@,
                None => Seq::<char>::empty(),
            }),
        },
{
    match result {
        None => Err(MoonrakerError::Decode("champ `result` absent".to_owned())),
        Some(f) => {
            let klippy_connected = match f.klippy_connected {
                Some(b) => b,
                None => false,
            };
            let klippy_state = match f.klippy_state {
                Some(s) => s,
                None => String::new(),
            };
            let moonraker_version = match f.moonraker_version {
                Some(s) => s,
                None => String::new(),
            };
            Ok(ServerInfo { klippy_connected, klippy_state, moonraker_version })
        },
    }
}

/// Reads an upload reply: the path Moonraker reports (`item.path`), else
/// the uploaded file name; `print_started` as reported, else the request.
pub fn upload_result_from(
    filename: &str,
    reported_path: Option<&str>,
    reported_started: Option<bool>,
    start_now: bool,
) -> (r: UploadResult)
    ensures
        r.path@ == (match reported_path {
            Some(p) => p@,
            None => filename@,
        }),
        r.print_started == (match reported_started {
            Some(b) => b,
            None => start_now,
        }),
{
    let path = match reported_path {
        Some(p) => p.to_owned(),
        None => filename.to_owned(),
    };
    let print_started = match reported_started {
        Some(b) => b,
        None => start_now,
    };
    UploadResult { path, print_started }
}

/// Value of the `print` form field of an upload.
pub fn print_field(start_now: bool) -> (r: &'static str)
    ensures
        r@ == (if start_now {
            "true"@
        } else {
            "false"@
        }),
{
    if start_now {
        "true"
    } else {
        "false"
    }
}

/// A print control of the host.
#[derive(Debug, Clone, Copy, PartialEq, Eq)]
pub enum PrintAction {
    Pause,
    Resume,
    Cancel,
}

/// Name of a print control.
pub open spec fn print_action_name(a: PrintAction) -> Seq<char> {
    match a {
        PrintAction::Pause => "pause"@,
        PrintAction::Resume => "resume"@,
        PrintAction::Cancel => "cancel"@,
    }
}

/// REST path of a print control: `/printer/print/<action>`.
pub fn print_action_path(action: PrintAction) -> (r: String)
    ensures
        r@ == "/printer/print/"@ + print_action_name(action),
{
    let name = match action {
        PrintAction::Pause => "pause",
        PrintAction::Resume => "resume",
        PrintAction::Cancel => "cancel",
    };
    concat2("/printer/print/", name)
}

/// Polling path of the followed objects:
/// `/printer/objects/query?print_stats&display_status&extruder&heater_bed`.
pub fn query_path() -> (r: String)
    ensures
        r@ == "/printer/objects/query?"@ + spec_subscribed_objects()[0] + "&"@
            + spec_subscribed_objects()[1] + "&"@ + spec_subscribed_objects()[2] + "&"@
            + spec_subscribed_objects()[3],
{
    let objects = subscribed_objects();
    let mut r = concat2("/printer/objects/query?", objects[0]);
    r = concat2(r.as_str(), "&");
    r = concat2(r.as_str(), objects[1]);
    r = concat2(r.as_str(), "&");
    r = concat2(r.as_str(), objects[2]);
    r = concat2(r.as_str(), "&");
    r = concat2(r.as_str(), objects[3]);
    r
}

/// JSON text of the JSON-RPC 2.0 `printer.objects.subscribe` request with
/// the given id, listing every followed object with a `null` field list.
pub open spec fn spec_subscribe_request(id: u64) -> Seq<char> {
    "{\"jsonrpc\":\"2.0\",\"method\":\"printer.objects.subscribe\",\"params\":{\"objects\":{"@
        + "\"print_stats\":null,\"display_status\":null,\"extruder\":null,\"heater_bed\":null}},"@
        + "\"id\":"@ + decimal(id as nat) + "}"@
}

/// The `printer.objects.subscribe` request with the given id, as JSON text.
pub fn subscribe_request(id: u64) -> (r: String)
    ensures
        r@ == spec_subscribe_request(id),
{
    let head = concat2(
        "{\"jsonrpc\":\"2.0\",\"method\":\"printer.objects.subscribe\",\"params\":{\"objects\":{",
        "\"print_stats\":null,\"display_status\":null,\"extruder\":null,\"heater_bed\":null}},",
    );
    let with_key = concat2(head.as_str(), "\"id\":");
    let digits = string_of(&decimal_text(id as u128));
    let with_id = concat2(with_key.as_str(), digits.as_str());
    concat2(with_id.as_str(), "}")
}

} // verus!
