//! AVTransport and RenderingControl: what a control request asks for, and the
//! SOAP answer given the player's readings.
use vstd::prelude::*;
use crate::text::{
    chars_of, decimal, eq_ignore_ascii_case, eq_ignore_ascii_case_str, eq_str, pad2, push_char,
    push_decimal, push_pad2, string_of, contains_seq, lemma_contains_within, lemma_contains_middle,
};
use super::soap::{
    action_name, invalid_action_text, param_value, soap_body, soap_error, soap_response,
    soap_response_text, SERVICE_AVT, SERVICE_RC, extract_action, extract_param,
};
use super::xml::{xml_escape, xml_escaped, xml_unescape, xml_unescaped};
use super::description::avt_action_names;

verus! {

/// `secs` as `HH:MM:SS` (hours not limited to two digits).
pub open spec fn duration_text(secs: nat) -> Seq<char> {
    pad2(secs / 3600) + ":"@ + pad2((secs % 3600) / 60) + ":"@ + pad2(secs % 60)
}

/// Whole seconds as `HH:MM:SS`.
pub fn fmt_duration(secs: u64) -> (r: String)
    ensures
        r@ == duration_text(secs as nat),
{
    let mut out = String::new();
    push_pad2(&mut out, secs / 3600);
    out.append(":");
    push_pad2(&mut out, (secs % 3600) / 60);
    out.append(":");
    push_pad2(&mut out, secs % 60);
    out
}

/// What the player reports when a query action is answered.
#[derive(Clone, Copy)]
pub struct PlayerReadings {
    /// Media duration in whole seconds (0 when unknown).
    pub duration_secs: u64,
    /// Playback position in whole seconds (0 when unknown).
    pub position_secs: u64,
    /// Whether playback is paused.
    pub paused: bool,
    /// Volume as a whole number.
    pub volume: u64,
    /// Whether audio is muted.
    pub muted: bool,
}

/// An AVTransport request.
pub enum AvtAction {
    /// `SetAVTransportURI`, with the unescaped `CurrentURI` when present.
    SetUri(Option<String>),
    Play,
    Pause,
    Stop,
    /// `Seek`, with the `Target` parameter (empty when absent).
    Seek(String),
    /// `Next` or `Previous` (the name as received).
    Skip(String),
    SetNextUri,
    GetMediaInfo,
    GetDeviceCapabilities,
    GetPositionInfo,
    GetTransportInfo,
    GetTransportSettings,
    Invalid,
}

/// The model of an AVTransport request.
pub enum AvtRequest {
    SetUri(Option<Seq<char>>),
    Play,
    Pause,
    Stop,
    Seek(Seq<char>),
    Skip(Seq<char>),
    SetNextUri,
    GetMediaInfo,
    GetDeviceCapabilities,
    GetPositionInfo,
    GetTransportInfo,
    GetTransportSettings,
    Invalid,
}

impl View for AvtAction {
    type V = AvtRequest;

    open spec fn view(&self) -> AvtRequest {
        match self {
            AvtAction::SetUri(u) => AvtRequest::SetUri(
                match u {
                    Some(s) => Some(s@),
                    None => None,
                },
            ),
            AvtAction::Play => AvtRequest::Play,
            AvtAction::Pause => AvtRequest::Pause,
            AvtAction::Stop => AvtRequest::Stop,
            AvtAction::Seek(t) => AvtRequest::Seek(t@),
            AvtAction::Skip(n) => AvtRequest::Skip(n@),
            AvtAction::SetNextUri => AvtRequest::SetNextUri,
            AvtAction::GetMediaInfo => AvtRequest::GetMediaInfo,
            AvtAction::GetDeviceCapabilities => AvtRequest::GetDeviceCapabilities,
            AvtAction::GetPositionInfo => AvtRequest::GetPositionInfo,
            AvtAction::GetTransportInfo => AvtRequest::GetTransportInfo,
            AvtAction::GetTransportSettings => AvtRequest::GetTransportSettings,
            AvtAction::Invalid => AvtRequest::Invalid,
        }
    }
}

/// The AVTransport request a control body carries.
pub open spec fn avt_request_of(body: Seq<char>) -> AvtRequest {
    let a = action_name(body);
    if a == "SetAVTransportURI"@ {
        AvtRequest::SetUri(
            match param_value(body, "CurrentURI"@) {
                Some(u) => Some(xml_unescaped(u)),
                None => None,
            },
        )
    } else if a == "Play"@ {
        AvtRequest::Play
    } else if a == "Pause"@ {
        AvtRequest::Pause
    } else if a == "Stop"@ {
        AvtRequest::Stop
    } else if a == "Seek"@ {
        AvtRequest::Seek(
            match param_value(body, "Target"@) {
                Some(t) => t,
                None => Seq::empty(),
            },
        )
    } else if a == "Next"@ || a == "Previous"@ {
        AvtRequest::Skip(a)
    } else if a == "SetNextAVTransportURI"@ {
        AvtRequest::SetNextUri
    } else if a == "GetMediaInfo"@ {
        AvtRequest::GetMediaInfo
    } else if a == "GetDeviceCapabilities"@ {
        AvtRequest::GetDeviceCapabilities
    } else if a == "GetPositionInfo"@ {
        AvtRequest::GetPositionInfo
    } else if a == "GetTransportInfo"@ {
        AvtRequest::GetTransportInfo
    } else if a == "GetTransportSettings"@ {
        AvtRequest::GetTransportSettings
    } else {
        AvtRequest::Invalid
    }
}

/// Reads the AVTransport request in a control body.
pub fn parse_avt(body: &str) -> (r: AvtAction)
    ensures
        r@ == avt_request_of(body@),
{
    let a = chars_of(extract_action(body).as_str());
    if eq_str(&a, "SetAVTransportURI") {
        match extract_param(body, "CurrentURI") {
            Some(raw) => AvtAction::SetUri(Some(xml_unescape(raw.as_str()))),
            None => AvtAction::SetUri(None),
        }
    } else if eq_str(&a, "Play") {
        AvtAction::Play
    } else if eq_str(&a, "Pause") {
        AvtAction::Pause
    } else if eq_str(&a, "Stop") {
        AvtAction::Stop
    } else if eq_str(&a, "Seek") {
        match extract_param(body, "Target") {
            Some(t) => AvtAction::Seek(t),
            None => AvtAction::Seek(String::new()),
        }
    } else if eq_str(&a, "Next") || eq_str(&a, "Previous") {
        AvtAction::Skip(string_of(&a))
    } else if eq_str(&a, "SetNextAVTransportURI") {
        AvtAction::SetNextUri
    } else if eq_str(&a, "GetMediaInfo") {
        AvtAction::GetMediaInfo
    } else if eq_str(&a, "GetDeviceCapabilities") {
        AvtAction::GetDeviceCapabilities
    } else if eq_str(&a, "GetPositionInfo") {
        AvtAction::GetPositionInfo
    } else if eq_str(&a, "GetTransportInfo") {
        AvtAction::GetTransportInfo
    } else if eq_str(&a, "GetTransportSettings") {
        AvtAction::GetTransportSettings
    } else {
        AvtAction::Invalid
    }
}

/// Whether an AVTransport request changes state and is followed by a
/// `LastChange` event to subscribers.
pub open spec fn avt_notifies_of(a: AvtRequest) -> bool {
    match a {
        AvtRequest::SetUri(_) | AvtRequest::Play | AvtRequest::Pause | AvtRequest::Stop
        | AvtRequest::Seek(_) => true,
        _ => false,
    }
}

/// Whether an AVTransport request is followed by a `LastChange` event.
pub fn avt_notifies(a: &AvtAction) -> (r: bool)
    ensures
        r == avt_notifies_of(a@),
{
    match a {
        AvtAction::SetUri(_) | AvtAction::Play | AvtAction::Pause | AvtAction::Stop
        | AvtAction::Seek(_) => true,
        _ => false,
    }
}

/// The `GetMediaInfo` result elements.
pub open spec fn media_info_text(duration: nat, uri: Seq<char>) -> Seq<char> {
    "<NrTracks>1</NrTracks><MediaDuration>"@ + duration_text(duration) + "</MediaDuration><CurrentURI>"@
        + xml_escaped(uri)
        + "</CurrentURI><CurrentURIMetaData></CurrentURIMetaData><NextURI></NextURI><NextURIMetaData></NextURIMetaData><PlayMedium>NETWORK</PlayMedium><RecordMedium>NONE</RecordMedium><WriteStatus>NOT_WRITABLE</WriteStatus>"@
}

/// The `GetPositionInfo` result elements.
pub open spec fn position_info_text(duration: nat, uri: Seq<char>, position: nat) -> Seq<char> {
    "<Track>1</Track><TrackDuration>"@ + duration_text(duration)
        + "</TrackDuration><TrackMetaData></TrackMetaData><TrackURI>"@ + xml_escaped(uri)
        + "</TrackURI><RelTime>"@ + duration_text(position) + "</RelTime><AbsTime>"@
        + duration_text(position) + "</AbsTime><RelCount>0</RelCount><AbsCount>0</AbsCount>"@
}

/// The transport state reported for the player.
pub open spec fn transport_state(paused: bool) -> Seq<char> {
    if paused {
        "PAUSED_PLAYBACK"@
    } else {
        "PLAYING"@
    }
}

/// The `GetTransportInfo` result elements.
pub open spec fn transport_info_text(paused: bool) -> Seq<char> {
    "<CurrentTransportState>"@ + transport_state(paused)
        + "</CurrentTransportState><CurrentTransportStatus>OK</CurrentTransportStatus><CurrentSpeed>1</CurrentSpeed>"@
}

/// The renderer's device capabilities.
pub const DEVICE_CAPABILITIES: &'static str = "<PlayMedia>NETWORK</PlayMedia><RecMedia></RecMedia><RecQualityModes></RecQualityModes>";

/// The renderer's transport settings.
pub const TRANSPORT_SETTINGS: &'static str = "<PlayMode>NORMAL</PlayMode><RecQualityMode>0</RecQualityMode>";

/// The answer to an AVTransport request, given the player's readings and the
/// current session URI.
pub open spec fn avt_response_of(a: AvtRequest, p: PlayerReadings, uri: Seq<char>) -> Seq<char> {
    match a {
        AvtRequest::SetUri(_) => soap_response_text("SetAVTransportURI"@, SERVICE_AVT@, ""@),
        AvtRequest::Play => soap_response_text("Play"@, SERVICE_AVT@, ""@),
        AvtRequest::Pause => soap_response_text("Pause"@, SERVICE_AVT@, ""@),
        AvtRequest::Stop => soap_response_text("Stop"@, SERVICE_AVT@, ""@),
        AvtRequest::Seek(_) => soap_response_text("Seek"@, SERVICE_AVT@, ""@),
        AvtRequest::Skip(n) => soap_response_text(n, SERVICE_AVT@, ""@),
        AvtRequest::SetNextUri => soap_response_text("SetNextAVTransportURI"@, SERVICE_AVT@, ""@),
        AvtRequest::GetMediaInfo => soap_response_text(
            "GetMediaInfo"@,
            SERVICE_AVT@,
            media_info_text(p.duration_secs as nat, uri),
        ),
        AvtRequest::GetDeviceCapabilities => soap_response_text(
            "GetDeviceCapabilities"@,
            SERVICE_AVT@,
            DEVICE_CAPABILITIES@,
        ),
        AvtRequest::GetPositionInfo => soap_response_text(
            "GetPositionInfo"@,
            SERVICE_AVT@,
            position_info_text(p.duration_secs as nat, uri, p.position_secs as nat),
        ),
        AvtRequest::GetTransportInfo => soap_response_text(
            "GetTransportInfo"@,
            SERVICE_AVT@,
            transport_info_text(p.paused),
        ),
        AvtRequest::GetTransportSettings => soap_response_text(
            "GetTransportSettings"@,
            SERVICE_AVT@,
            TRANSPORT_SETTINGS@,
        ),
        AvtRequest::Invalid => invalid_action_text(),
    }
}

/// Answers an AVTransport request.
pub fn avt_response(a: &AvtAction, p: &PlayerReadings, session_uri: &str) -> (r: String)
    ensures
        r@ == avt_response_of(a@, *p, session_uri@),
{
    match a {
        AvtAction::SetUri(_) => soap_response("SetAVTransportURI", SERVICE_AVT, ""),
        AvtAction::Play => soap_response("Play", SERVICE_AVT, ""),
        AvtAction::Pause => soap_response("Pause", SERVICE_AVT, ""),
        AvtAction::Stop => soap_response("Stop", SERVICE_AVT, ""),
        AvtAction::Seek(_) => soap_response("Seek", SERVICE_AVT, ""),
        AvtAction::Skip(n) => soap_response(n.as_str(), SERVICE_AVT, ""),
        AvtAction::SetNextUri => soap_response("SetNextAVTransportURI", SERVICE_AVT, ""),
        AvtAction::GetMediaInfo => {
            let mut inner = String::new();
            inner.append("<NrTracks>1</NrTracks><MediaDuration>");
            inner.append(fmt_duration(p.duration_secs).as_str());
            inner.append("</MediaDuration><CurrentURI>");
            inner.append(xml_escape(session_uri).as_str());
            inner.append(
                "</CurrentURI><CurrentURIMetaData></CurrentURIMetaData><NextURI></NextURI><NextURIMetaData></NextURIMetaData><PlayMedium>NETWORK</PlayMedium><RecordMedium>NONE</RecordMedium><WriteStatus>NOT_WRITABLE</WriteStatus>",
            );
            soap_response("GetMediaInfo", SERVICE_AVT, inner.as_str())
        },
        AvtAction::GetDeviceCapabilities => soap_response(
            "GetDeviceCapabilities",
            SERVICE_AVT,
            DEVICE_CAPABILITIES,
        ),
        AvtAction::GetPositionInfo => {
            let mut inner = String::new();
            inner.append("<Track>1</Track><TrackDuration>");
            inner.append(fmt_duration(p.duration_secs).as_str());
            inner.append("</TrackDuration><TrackMetaData></TrackMetaData><TrackURI>");
            inner.append(xml_escape(session_uri).as_str());
            inner.append("</TrackURI><RelTime>");
            inner.append(fmt_duration(p.position_secs).as_str());
            inner.append("</RelTime><AbsTime>");
            inner.append(fmt_duration(p.position_secs).as_str());
            inner.append("</AbsTime><RelCount>0</RelCount><AbsCount>0</AbsCount>");
            soap_response("GetPositionInfo", SERVICE_AVT, inner.as_str())
        },
        AvtAction::GetTransportInfo => {
            let mut inner = String::new();
            inner.append("<CurrentTransportState>");
            if p.paused {
                inner.append("PAUSED_PLAYBACK");
            } else {
                inner.append("PLAYING");
            }
            inner.append(
                "</CurrentTransportState><CurrentTransportStatus>OK</CurrentTransportStatus><CurrentSpeed>1</CurrentSpeed>",
            );
            soap_response("GetTransportInfo", SERVICE_AVT, inner.as_str())
        },
        AvtAction::GetTransportSettings => soap_response(
            "GetTransportSettings",
            SERVICE_AVT,
            TRANSPORT_SETTINGS,
        ),
        AvtAction::Invalid => soap_error("401", "Invalid Action"),
    }
}

// ---------------------------------------------------------------------------
// RenderingControl.
// ---------------------------------------------------------------------------

/// A RenderingControl request.
pub enum RcAction {
    /// `SetVolume`, with the `DesiredVolume` parameter when present.
    SetVolume(Option<String>),
    GetVolume,
    /// `SetMute`, with whether `DesiredMute` asks to mute.
    SetMute(bool),
    GetMute,
    Invalid,
}

/// The model of a RenderingControl request.
pub enum RcRequest {
    SetVolume(Option<Seq<char>>),
    GetVolume,
    SetMute(bool),
    GetMute,
    Invalid,
}

impl View for RcAction {
    type V = RcRequest;

    open spec fn view(&self) -> RcRequest {
        match self {
            RcAction::SetVolume(v) => RcRequest::SetVolume(
                match v {
                    Some(s) => Some(s@),
                    None => None,
                },
            ),
            RcAction::GetVolume => RcRequest::GetVolume,
            RcAction::SetMute(m) => RcRequest::SetMute(*m),
            RcAction::GetMute => RcRequest::GetMute,
            RcAction::Invalid => RcRequest::Invalid,
        }
    }
}

/// `DesiredMute` asks to mute: it is `1` or `true` in any ASCII case.
pub open spec fn mute_flag(v: Seq<char>) -> bool {
    v == "1"@ || eq_ignore_ascii_case(v, "true"@)
}

/// The RenderingControl request a control body carries.
pub open spec fn rc_request_of(body: Seq<char>) -> RcRequest {
    let a = action_name(body);
    if a == "SetVolume"@ {
        RcRequest::SetVolume(param_value(body, "DesiredVolume"@))
    } else if a == "GetVolume"@ {
        RcRequest::GetVolume
    } else if a == "SetMute"@ {
        RcRequest::SetMute(
            mute_flag(
                match param_value(body, "DesiredMute"@) {
                    Some(v) => v,
                    None => Seq::empty(),
                },
            ),
        )
    } else if a == "GetMute"@ {
        RcRequest::GetMute
    } else {
        RcRequest::Invalid
    }
}

/// Reads the RenderingControl request in a control body.
pub fn parse_rc(body: &str) -> (r: RcAction)
    ensures
        r@ == rc_request_of(body@),
{
    let a = chars_of(extract_action(body).as_str());
    if eq_str(&a, "SetVolume") {
        RcAction::SetVolume(extract_param(body, "DesiredVolume"))
    } else if eq_str(&a, "GetVolume") {
        RcAction::GetVolume
    } else if eq_str(&a, "SetMute") {
        let v = match extract_param(body, "DesiredMute") {
            Some(v) => chars_of(v.as_str()),
            None => Vec::new(),
        };
        RcAction::SetMute(eq_str(&v, "1") || eq_ignore_ascii_case_str(&v, "true"))
    } else if eq_str(&a, "GetMute") {
        RcAction::GetMute
    } else {
        RcAction::Invalid
    }
}

/// Whether a RenderingControl request is followed by a `LastChange` event.
pub open spec fn rc_notifies_of(a: RcRequest) -> bool {
    match a {
        RcRequest::SetVolume(_) | RcRequest::SetMute(_) => true,
        _ => false,
    }
}

/// Whether a RenderingControl request is followed by a `LastChange` event.
pub fn rc_notifies(a: &RcAction) -> (r: bool)
    ensures
        r == rc_notifies_of(a@),
{
    match a {
        RcAction::SetVolume(_) | RcAction::SetMute(_) => true,
        _ => false,
    }
}

/// The answer to a RenderingControl request, given the player's readings.
pub open spec fn rc_response_of(a: RcRequest, p: PlayerReadings) -> Seq<char> {
    match a {
        RcRequest::SetVolume(_) => soap_response_text("SetVolume"@, SERVICE_RC@, ""@),
        RcRequest::GetVolume => soap_response_text(
            "GetVolume"@,
            SERVICE_RC@,
            "<CurrentVolume>"@ + decimal(p.volume as nat) + "</CurrentVolume>"@,
        ),
        RcRequest::SetMute(_) => soap_response_text("SetMute"@, SERVICE_RC@, ""@),
        RcRequest::GetMute => soap_response_text(
            "GetMute"@,
            SERVICE_RC@,
            "<CurrentMute>"@ + (if p.muted {
                "1"@
            } else {
                "0"@
            }) + "</CurrentMute>"@,
        ),
        RcRequest::Invalid => invalid_action_text(),
    }
}

/// Answers a RenderingControl request.
pub fn rc_response(a: &RcAction, p: &PlayerReadings) -> (r: String)
    ensures
        r@ == rc_response_of(a@, *p),
{
    match a {
        RcAction::SetVolume(_) => soap_response("SetVolume", SERVICE_RC, ""),
        RcAction::GetVolume => {
            let mut inner = String::new();
            inner.append("<CurrentVolume>");
            push_decimal(&mut inner, p.volume);
            inner.append("</CurrentVolume>");
            soap_response("GetVolume", SERVICE_RC, inner.as_str())
        },
        RcAction::SetMute(_) => soap_response("SetMute", SERVICE_RC, ""),
        RcAction::GetMute => {
            let mut inner = String::new();
            inner.append("<CurrentMute>");
            if p.muted {
                inner.append("1");
            } else {
                inner.append("0");
            }
            inner.append("</CurrentMute>");
            soap_response("GetMute", SERVICE_RC, inner.as_str())
        },
        RcAction::Invalid => soap_error("401", "Invalid Action"),
    }
}

/// The AVTransport SCPD declares exactly the actions the renderer answers: a
/// control request is answered with the 401 "Invalid Action" fault exactly when
/// its action is not one the SCPD lists.
pub proof fn law_avt_scpd_matches_actions(body: Seq<char>, p: PlayerReadings, uri: Seq<char>)
    ensures
        (avt_request_of(body) is Invalid) <==> !avt_action_names().contains(action_name(body)),
        avt_request_of(body) is Invalid ==> avt_response_of(avt_request_of(body), p, uri)
            == invalid_action_text(),
{
    let a = action_name(body);
    let names = avt_action_names();
    assert(names.len() == 13);
        if a == "SetAVTransportURI"@ {
            assert(names[0] == a);
        }
        if a == "SetNextAVTransportURI"@ {
            assert(names[1] == a);
        }
        if a == "Play"@ {
            assert(names[2] == a);
        }
        if a == "Pause"@ {
            assert(names[3] == a);
        }
        if a == "Stop"@ {
            assert(names[4] == a);
        }
        if a == "Seek"@ {
            assert(names[5] == a);
        }
        if a == "Next"@ {
            assert(names[6] == a);
        }
        if a == "Previous"@ {
            assert(names[7] == a);
        }
        if a == "GetMediaInfo"@ {
            assert(names[8] == a);
        }
        if a == "GetPositionInfo"@ {
            assert(names[9] == a);
        }
        if a == "GetTransportInfo"@ {
            assert(names[10] == a);
        }
        if a == "GetTransportSettings"@ {
            assert(names[11] == a);
        }
        if a == "GetDeviceCapabilities"@ {
            assert(names[12] == a);
        }
    if names.contains(a) {
        let i = choose|i: int| 0 <= i < names.len() && names[i] == a;
        assert(!(avt_request_of(body) is Invalid)) by {
            if i == 0 {
                assert(a == "SetAVTransportURI"@);
            }
            if i == 1 {
                assert(a == "SetNextAVTransportURI"@);
            }
            if i == 2 {
                assert(a == "Play"@);
            }
            if i == 3 {
                assert(a == "Pause"@);
            }
            if i == 4 {
                assert(a == "Stop"@);
            }
            if i == 5 {
                assert(a == "Seek"@);
            }
            if i == 6 {
                assert(a == "Next"@);
            }
            if i == 7 {
                assert(a == "Previous"@);
            }
            if i == 8 {
                assert(a == "GetMediaInfo"@);
            }
            if i == 9 {
                assert(a == "GetPositionInfo"@);
            }
            if i == 10 {
                assert(a == "GetTransportInfo"@);
            }
            if i == 11 {
                assert(a == "GetTransportSettings"@);
            }
            if i == 12 {
                assert(a == "GetDeviceCapabilities"@);
            }
        }
    }
}

/// The session URI after an AVTransport request: a `SetAVTransportURI` that
/// carries a URI replaces it; every other request leaves it.
pub open spec fn session_after(uri: Seq<char>, a: AvtRequest) -> Seq<char> {
    match a {
        AvtRequest::SetUri(Some(u)) => u,
        _ => uri,
    }
}

/// After a `SetAVTransportURI` request carrying a URI, a `GetPositionInfo`
/// request is answered with that URI (unescaped from the request, escaped
/// again for the answer) as the track URI, and the player's position as both
/// the relative and the absolute time.
pub proof fn law_set_uri_then_position_info(
    uri0: Seq<char>,
    b1: Seq<char>,
    b2: Seq<char>,
    p: PlayerReadings,
)
    requires
        action_name(b1) == "SetAVTransportURI"@,
        param_value(b1, "CurrentURI"@) is Some,
        action_name(b2) == "GetPositionInfo"@,
    ensures
        ({
            let u = xml_unescaped(param_value(b1, "CurrentURI"@)->0);
            let session = session_after(uri0, avt_request_of(b1));
            let r = avt_response_of(avt_request_of(b2), p, session);
            let pos = duration_text(p.position_secs as nat);
            &&& session == u
            &&& r == soap_response_text(
                "GetPositionInfo"@,
                SERVICE_AVT@,
                position_info_text(p.duration_secs as nat, u, p.position_secs as nat),
            )
            &&& contains_seq(r, "<TrackURI>"@ + xml_escaped(u) + "</TrackURI>"@)
            &&& contains_seq(r, "<RelTime>"@ + pos + "</RelTime><AbsTime>"@ + pos + "</AbsTime>"@)
        }),
{
    let u = xml_unescaped(param_value(b1, "CurrentURI"@)->0);
    reveal_strlit("SetAVTransportURI");
    reveal_strlit("Play");
    reveal_strlit("Pause");
    reveal_strlit("Stop");
    reveal_strlit("Seek");
    reveal_strlit("Next");
    reveal_strlit("Previous");
    reveal_strlit("SetNextAVTransportURI");
    reveal_strlit("GetMediaInfo");
    reveal_strlit("GetDeviceCapabilities");
    reveal_strlit("GetPositionInfo");
    assert(avt_request_of(b1) == AvtRequest::SetUri(Some(u)));
    assert(action_name(b2) != "SetAVTransportURI"@) by {
        assert("SetAVTransportURI"@.len() != "GetPositionInfo"@.len());
    }
    assert(action_name(b2) != "Play"@) by {
        assert("Play"@.len() != "GetPositionInfo"@.len());
    }
    assert(action_name(b2) != "Pause"@) by {
        assert("Pause"@.len() != "GetPositionInfo"@.len());
    }
    assert(action_name(b2) != "Stop"@) by {
        assert("Stop"@.len() != "GetPositionInfo"@.len());
    }
    assert(action_name(b2) != "Seek"@) by {
        assert("Seek"@.len() != "GetPositionInfo"@.len());
    }
    assert(action_name(b2) != "Next"@) by {
        assert("Next"@.len() != "GetPositionInfo"@.len());
    }
    assert(action_name(b2) != "Previous"@) by {
        assert("Previous"@.len() != "GetPositionInfo"@.len());
    }
    assert(action_name(b2) != "SetNextAVTransportURI"@) by {
        assert("SetNextAVTransportURI"@.len() != "GetPositionInfo"@.len());
    }
    assert(action_name(b2) != "GetMediaInfo"@) by {
        assert("GetMediaInfo"@.len() != "GetPositionInfo"@.len());
    }
    assert(action_name(b2) != "GetDeviceCapabilities"@) by {
        assert("GetDeviceCapabilities"@.len() != "GetPositionInfo"@.len());
    }
    assert(avt_request_of(b2) == AvtRequest::GetPositionInfo);
    let pos = duration_text(p.position_secs as nat);
    let inner = position_info_text(p.duration_secs as nat, u, p.position_secs as nat);
    let body = soap_body("GetPositionInfo"@, SERVICE_AVT@, inner);
    let r = soap_response_text("GetPositionInfo"@, SERVICE_AVT@, inner);
    let t1 = "<TrackURI>"@ + xml_escaped(u) + "</TrackURI>"@;
    let t2 = "<RelTime>"@ + pos + "</RelTime><AbsTime>"@ + pos + "</AbsTime>"@;
    let a1 = "<Track>1</Track><TrackDuration>"@ + duration_text(p.duration_secs as nat)
        + "</TrackDuration><TrackMetaData></TrackMetaData>"@;
    let c1 = "<RelTime>"@ + pos + "</RelTime><AbsTime>"@ + pos
        + "</AbsTime><RelCount>0</RelCount><AbsCount>0</AbsCount>"@;
    let a2 = a1 + t1;
    let c2 = "<RelCount>0</RelCount><AbsCount>0</AbsCount>"@;
    reveal_strlit("<Track>1</Track><TrackDuration>");
    reveal_strlit("</TrackDuration><TrackMetaData></TrackMetaData><TrackURI>");
    reveal_strlit("</TrackURI><RelTime>");
    reveal_strlit("</RelTime><AbsTime>");
    reveal_strlit("</AbsTime><RelCount>0</RelCount><AbsCount>0</AbsCount>");
    reveal_strlit("</TrackDuration><TrackMetaData></TrackMetaData>");
    reveal_strlit("<TrackURI>");
    reveal_strlit("</TrackURI>");
    reveal_strlit("<RelTime>");
    reveal_strlit("</AbsTime>");
    reveal_strlit("<RelCount>0</RelCount><AbsCount>0</AbsCount>");
    assert(inner =~= a1 + t1 + c1);
    assert(inner =~= a2 + t2 + c2);
    lemma_contains_middle(a1, t1, c1);
    lemma_contains_middle(a2, t2, c2);
    let bp = "<?xml version=\"1.0\" encoding=\"utf-8\"?>\n<s:Envelope xmlns:s=\"http://schemas.xmlsoap.org/soap/envelope/\" s:encodingStyle=\"http://schemas.xmlsoap.org/soap/encoding/\">\n<s:Body><u:"@
        + "GetPositionInfo"@ + "Response xmlns:u=\""@ + SERVICE_AVT@ + "\">"@;
    let bq = "</u:"@ + "GetPositionInfo"@ + "Response></s:Body></s:Envelope>"@;
    assert(body =~= bp + inner + bq);
    lemma_contains_within(bp, inner, bq, t1);
    lemma_contains_within(bp, inner, bq, t2);
    let hp = "HTTP/1.1 "@ + "200 OK"@ + "\r\nContent-Type: "@ + "text/xml; charset=\"utf-8\""@
        + "\r\nContent-Length: "@ + decimal(super::http::str_len(body) as nat)
        + "\r\nConnection: close\r\n\r\n"@;
    assert(r =~= hp + body + Seq::<char>::empty());
    lemma_contains_within(hp, body, Seq::<char>::empty(), t1);
    lemma_contains_within(hp, body, Seq::<char>::empty(), t2);
}

/// Each AVTransport action keeps its own meaning: a control body naming one of
/// the actions the renderer lists is read as that very request, and answered
/// with the SOAP response named after the same action (`<u:{action}Response>`),
/// carrying the state the query asks for.
pub proof fn law_avt_actions_keep_meaning(body: Seq<char>, p: PlayerReadings, uri: Seq<char>)
    ensures
        ({
            let a = action_name(body);
            let req = avt_request_of(body);
            let r = avt_response_of(req, p, uri);
            &&& a == "SetAVTransportURI"@ ==> req is SetUri && r == soap_response_text("SetAVTransportURI"@, SERVICE_AVT@, ""@)
            &&& a == "Play"@ ==> req == AvtRequest::Play && r == soap_response_text("Play"@, SERVICE_AVT@, ""@)
            &&& a == "Pause"@ ==> req == AvtRequest::Pause && r == soap_response_text("Pause"@, SERVICE_AVT@, ""@)
            &&& a == "Stop"@ ==> req == AvtRequest::Stop && r == soap_response_text("Stop"@, SERVICE_AVT@, ""@)
            &&& a == "Seek"@ ==> req is Seek && r == soap_response_text("Seek"@, SERVICE_AVT@, ""@)
            &&& a == "Next"@ ==> req == AvtRequest::Skip("Next"@) && r == soap_response_text("Next"@, SERVICE_AVT@, ""@)
            &&& a == "Previous"@ ==> req == AvtRequest::Skip("Previous"@) && r == soap_response_text("Previous"@, SERVICE_AVT@, ""@)
            &&& a == "SetNextAVTransportURI"@ ==> req == AvtRequest::SetNextUri && r == soap_response_text("SetNextAVTransportURI"@, SERVICE_AVT@, ""@)
            &&& a == "GetMediaInfo"@ ==> req == AvtRequest::GetMediaInfo && r == soap_response_text("GetMediaInfo"@, SERVICE_AVT@, media_info_text(p.duration_secs as nat, uri))
            &&& a == "GetDeviceCapabilities"@ ==> req == AvtRequest::GetDeviceCapabilities && r == soap_response_text("GetDeviceCapabilities"@, SERVICE_AVT@, DEVICE_CAPABILITIES@)
            &&& a == "GetPositionInfo"@ ==> req == AvtRequest::GetPositionInfo && r == soap_response_text("GetPositionInfo"@, SERVICE_AVT@, position_info_text(p.duration_secs as nat, uri, p.position_secs as nat))
            &&& a == "GetTransportInfo"@ ==> req == AvtRequest::GetTransportInfo && r == soap_response_text("GetTransportInfo"@, SERVICE_AVT@, transport_info_text(p.paused))
            &&& a == "GetTransportSettings"@ ==> req == AvtRequest::GetTransportSettings && r == soap_response_text("GetTransportSettings"@, SERVICE_AVT@, TRANSPORT_SETTINGS@)
        }),
{
    let a = action_name(body);
    reveal_strlit("SetAVTransportURI");
    reveal_strlit("Play");
    reveal_strlit("Pause");
    reveal_strlit("Stop");
    reveal_strlit("Seek");
    reveal_strlit("Next");
    reveal_strlit("Previous");
    reveal_strlit("SetNextAVTransportURI");
    reveal_strlit("GetMediaInfo");
    reveal_strlit("GetDeviceCapabilities");
    reveal_strlit("GetPositionInfo");
    reveal_strlit("GetTransportInfo");
    reveal_strlit("GetTransportSettings");
    if a == "SetAVTransportURI"@ {
    }
    if a == "Play"@ {
            assert("Play"@.len() != "SetAVTransportURI"@.len());
    }
    if a == "Pause"@ {
            assert("Pause"@.len() != "SetAVTransportURI"@.len());
            assert("Pause"@.len() != "Play"@.len());
    }
    if a == "Stop"@ {
            assert("Stop"@.len() != "SetAVTransportURI"@.len());
            assert("Stop"@[0] != "Play"@[0]);
            assert("Stop"@.len() != "Pause"@.len());
    }
    if a == "Seek"@ {
            assert("Seek"@.len() != "SetAVTransportURI"@.len());
            assert("Seek"@[0] != "Play"@[0]);
            assert("Seek"@.len() != "Pause"@.len());
            assert("Seek"@[1] != "Stop"@[1]);
    }
    if a == "Next"@ {
            assert("Next"@.len() != "SetAVTransportURI"@.len());
            assert("Next"@[0] != "Play"@[0]);
            assert("Next"@.len() != "Pause"@.len());
            assert("Next"@[0] != "Stop"@[0]);
            assert("Next"@[0] != "Seek"@[0]);
    }
    if a == "Previous"@ {
            assert("Previous"@.len() != "SetAVTransportURI"@.len());
            assert("Previous"@.len() != "Play"@.len());
            assert("Previous"@.len() != "Pause"@.len());
            assert("Previous"@.len() != "Stop"@.len());
            assert("Previous"@.len() != "Seek"@.len());
            assert("Previous"@.len() != "Next"@.len());
    }
    if a == "SetNextAVTransportURI"@ {
            assert("SetNextAVTransportURI"@.len() != "SetAVTransportURI"@.len());
            assert("SetNextAVTransportURI"@.len() != "Play"@.len());
            assert("SetNextAVTransportURI"@.len() != "Pause"@.len());
            assert("SetNextAVTransportURI"@.len() != "Stop"@.len());
            assert("SetNextAVTransportURI"@.len() != "Seek"@.len());
            assert("SetNextAVTransportURI"@.len() != "Next"@.len());
            assert("SetNextAVTransportURI"@.len() != "Previous"@.len());
    }
    if a == "GetMediaInfo"@ {
            assert("GetMediaInfo"@.len() != "SetAVTransportURI"@.len());
            assert("GetMediaInfo"@.len() != "Play"@.len());
            assert("GetMediaInfo"@.len() != "Pause"@.len());
            assert("GetMediaInfo"@.len() != "Stop"@.len());
            assert("GetMediaInfo"@.len() != "Seek"@.len());
            assert("GetMediaInfo"@.len() != "Next"@.len());
            assert("GetMediaInfo"@.len() != "Previous"@.len());
            assert("GetMediaInfo"@.len() != "SetNextAVTransportURI"@.len());
    }
    if a == "GetDeviceCapabilities"@ {
            assert("GetDeviceCapabilities"@.len() != "SetAVTransportURI"@.len());
            assert("GetDeviceCapabilities"@.len() != "Play"@.len());
            assert("GetDeviceCapabilities"@.len() != "Pause"@.len());
            assert("GetDeviceCapabilities"@.len() != "Stop"@.len());
            assert("GetDeviceCapabilities"@.len() != "Seek"@.len());
            assert("GetDeviceCapabilities"@.len() != "Next"@.len());
            assert("GetDeviceCapabilities"@.len() != "Previous"@.len());
            assert("GetDeviceCapabilities"@[0] != "SetNextAVTransportURI"@[0]);
            assert("GetDeviceCapabilities"@.len() != "GetMediaInfo"@.len());
    }
    if a == "GetPositionInfo"@ {
            assert("GetPositionInfo"@.len() != "SetAVTransportURI"@.len());
            assert("GetPositionInfo"@.len() != "Play"@.len());
            assert("GetPositionInfo"@.len() != "Pause"@.len());
            assert("GetPositionInfo"@.len() != "Stop"@.len());
            assert("GetPositionInfo"@.len() != "Seek"@.len());
            assert("GetPositionInfo"@.len() != "Next"@.len());
            assert("GetPositionInfo"@.len() != "Previous"@.len());
            assert("GetPositionInfo"@.len() != "SetNextAVTransportURI"@.len());
            assert("GetPositionInfo"@.len() != "GetMediaInfo"@.len());
            assert("GetPositionInfo"@.len() != "GetDeviceCapabilities"@.len());
    }
    if a == "GetTransportInfo"@ {
            assert("GetTransportInfo"@.len() != "SetAVTransportURI"@.len());
            assert("GetTransportInfo"@.len() != "Play"@.len());
            assert("GetTransportInfo"@.len() != "Pause"@.len());
            assert("GetTransportInfo"@.len() != "Stop"@.len());
            assert("GetTransportInfo"@.len() != "Seek"@.len());
            assert("GetTransportInfo"@.len() != "Next"@.len());
            assert("GetTransportInfo"@.len() != "Previous"@.len());
            assert("GetTransportInfo"@.len() != "SetNextAVTransportURI"@.len());
            assert("GetTransportInfo"@.len() != "GetMediaInfo"@.len());
            assert("GetTransportInfo"@.len() != "GetDeviceCapabilities"@.len());
            assert("GetTransportInfo"@.len() != "GetPositionInfo"@.len());
    }
    if a == "GetTransportSettings"@ {
            assert("GetTransportSettings"@.len() != "SetAVTransportURI"@.len());
            assert("GetTransportSettings"@.len() != "Play"@.len());
            assert("GetTransportSettings"@.len() != "Pause"@.len());
            assert("GetTransportSettings"@.len() != "Stop"@.len());
            assert("GetTransportSettings"@.len() != "Seek"@.len());
            assert("GetTransportSettings"@.len() != "Next"@.len());
            assert("GetTransportSettings"@.len() != "Previous"@.len());
            assert("GetTransportSettings"@.len() != "SetNextAVTransportURI"@.len());
            assert("GetTransportSettings"@.len() != "GetMediaInfo"@.len());
            assert("GetTransportSettings"@.len() != "GetDeviceCapabilities"@.len());
            assert("GetTransportSettings"@.len() != "GetPositionInfo"@.len());
            assert("GetTransportSettings"@.len() != "GetTransportInfo"@.len());
    }
}

/// Each RenderingControl action keeps its own meaning: a body naming
/// `SetVolume`, `GetVolume`, `SetMute` or `GetMute` is read as that request and
/// answered with the SOAP response named after it; any other action gets the
/// 401 "Invalid Action" fault.
pub proof fn law_rc_actions_keep_meaning(body: Seq<char>, p: PlayerReadings)
    ensures
        ({
            let a = action_name(body);
            let req = rc_request_of(body);
            let r = rc_response_of(req, p);
            &&& a == "SetVolume"@ ==> req == RcRequest::SetVolume(param_value(body, "DesiredVolume"@)) && r == soap_response_text("SetVolume"@, SERVICE_RC@, ""@)
            &&& a == "GetVolume"@ ==> req == RcRequest::GetVolume && r == soap_response_text("GetVolume"@, SERVICE_RC@, "<CurrentVolume>"@ + decimal(p.volume as nat) + "</CurrentVolume>"@)
            &&& a == "SetMute"@ ==> req is SetMute && r == soap_response_text("SetMute"@, SERVICE_RC@, ""@)
            &&& a == "GetMute"@ ==> req == RcRequest::GetMute && r == soap_response_text("GetMute"@, SERVICE_RC@, "<CurrentMute>"@ + (if p.muted { "1"@ } else { "0"@ }) + "</CurrentMute>"@)
            &&& (a != "SetVolume"@ && a != "GetVolume"@ && a != "SetMute"@ && a != "GetMute"@) ==> req == RcRequest::Invalid && r == invalid_action_text()
        }),
{
    let a = action_name(body);
    reveal_strlit("SetVolume");
    reveal_strlit("GetVolume");
    reveal_strlit("SetMute");
    reveal_strlit("GetMute");
    if a == "SetVolume"@ {
    }
    if a == "GetVolume"@ {
        assert("GetVolume"@[0] != "SetVolume"@[0]);
    }
    if a == "SetMute"@ {
        assert("SetMute"@.len() != "SetVolume"@.len());
        assert("SetMute"@.len() != "GetVolume"@.len());
    }
    if a == "GetMute"@ {
        assert("GetMute"@.len() != "SetVolume"@.len());
        assert("GetMute"@.len() != "GetVolume"@.len());
        assert("GetMute"@[0] != "SetMute"@[0]);
    }
}

} // verus!
