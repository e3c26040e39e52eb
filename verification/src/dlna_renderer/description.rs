//! The device description and service descriptions (SCPD) the renderer serves.
use vstd::prelude::*;
use crate::text::{decimal, push_decimal};
use super::http::{http_response, http_response_text};
use super::soap::{SERVICE_AVT, SERVICE_CM, SERVICE_RC};
use super::xml::{xml_escape, xml_escaped};

verus! {

/// The UPnP device type the renderer announces first.
pub const DEVICE_TYPE: &'static str = "urn:schemas-upnp-org:device:MediaRenderer:1";

/// The second device type the renderer announces.
pub const DEVICE_TYPE_2: &'static str = "urn:schemas-upnp-org:device:MediaRenderer:2";

/// Description text up to the device type.
pub const DESC_HEAD: &'static str = "<?xml version=\"1.0\" encoding=\"UTF-8\"?>\n<root xmlns=\"urn:schemas-upnp-org:device-1-0\" xmlns:dlna=\"urn:schemas-dlna-org:device-1-0\">\n  <specVersion><major>1</major><minor>0</minor></specVersion>\n  <device>\n    <deviceType>";

/// Description text between the device type and the friendly name.
pub const DESC_AFTER_TYPE: &'static str = "</deviceType>\n    <friendlyName>";

/// Description text between the friendly name and the manufacturer URL.
pub const DESC_AFTER_NAME: &'static str = "</friendlyName>\n    <manufacturer>ScreenCast</manufacturer>\n    <manufacturerURL>";

/// Description text between the manufacturer URL and the UDN.
pub const DESC_AFTER_URL: &'static str = "</manufacturerURL>\n    <modelDescription>DLNA Media Renderer</modelDescription>\n    <modelName>ScreenCast Receiver</modelName>\n    <modelNumber>1.1</modelNumber>\n    <dlna:X_DLNADOC>DMR-1.50</dlna:X_DLNADOC>\n    <UDN>uuid:";

/// Description text between the UDN and the presentation URL.
pub const DESC_AFTER_UDN: &'static str = "</UDN>\n    <iconList>\n      <icon>\n        <mimetype>image/png</mimetype>\n        <width>48</width>\n        <height>48</height>\n        <depth>24</depth>\n        <url>/icon.png</url>\n      </icon>\n    </iconList>\n    <presentationURL>";

/// Description text between the presentation URL and the AVTransport type.
pub const DESC_AFTER_PRESENTATION: &'static str = "</presentationURL>\n    <serviceList>\n      <service>\n        <serviceType>";

/// Description text between the AVTransport and RenderingControl types.
pub const DESC_AFTER_AVT: &'static str = "</serviceType>\n        <serviceId>urn:upnp-org:serviceId:AVTransport</serviceId>\n        <controlURL>/upnp/control/AVTransport</controlURL>\n        <eventSubURL>/upnp/event/AVTransport</eventSubURL>\n        <SCPDURL>/upnp/scpd/AVTransport.xml</SCPDURL>\n      </service>\n      <service>\n        <serviceType>";

/// Description text between the RenderingControl and ConnectionManager types.
pub const DESC_AFTER_RC: &'static str = "</serviceType>\n        <serviceId>urn:upnp-org:serviceId:RenderingControl</serviceId>\n        <controlURL>/upnp/control/RenderingControl</controlURL>\n        <eventSubURL>/upnp/event/RenderingControl</eventSubURL>\n        <SCPDURL>/upnp/scpd/RenderingControl.xml</SCPDURL>\n      </service>\n      <service>\n        <serviceType>";

/// Description text after the ConnectionManager type.
pub const DESC_TAIL: &'static str = "</serviceType>\n        <serviceId>urn:upnp-org:serviceId:ConnectionManager</serviceId>\n        <controlURL>/upnp/control/ConnectionManager</controlURL>\n        <eventSubURL>/upnp/event/ConnectionManager</eventSubURL>\n        <SCPDURL>/upnp/scpd/ConnectionManager.xml</SCPDURL>\n      </service>\n    </serviceList>\n  </device>\n</root>";

/// The AVTransport SCPD up to its action list.
pub const AVT_SCPD_HEAD: &'static str = "<?xml version=\"1.0\" encoding=\"UTF-8\"?>\n<scpd xmlns=\"urn:schemas-upnp-org:service-1-0\">\n  <specVersion><major>1</major><minor>0</minor></specVersion>\n  <actionList>\n";

/// The AVTransport SCPD after its action list.
pub const AVT_SCPD_TAIL: &'static str = "  </actionList>\n  <serviceStateTable>\n    <stateVariable sendEvents=\"yes\"><name>LastChange</name><dataType>string</dataType></stateVariable>\n    <stateVariable sendEvents=\"no\"><name>AVTransportURI</name><dataType>string</dataType></stateVariable>\n    <stateVariable sendEvents=\"no\"><name>TransportState</name><dataType>string</dataType></stateVariable>\n  </serviceStateTable>\n</scpd>";

/// The AVTransport actions the renderer declares, in the order it lists them.
pub open spec fn avt_action_names() -> Seq<Seq<char>> {
    seq!["SetAVTransportURI"@, "SetNextAVTransportURI"@, "Play"@, "Pause"@, "Stop"@, "Seek"@, "Next"@, "Previous"@, "GetMediaInfo"@, "GetPositionInfo"@, "GetTransportInfo"@, "GetTransportSettings"@, "GetDeviceCapabilities"@]
}

/// The entry of one action in an SCPD action list.
pub open spec fn action_entry(name: Seq<char>) -> Seq<char> {
    "    <action><name>"@ + name + "</name></action>\n"@
}

/// The action list entries for `names`, in order.
pub open spec fn action_list_xml(names: Seq<Seq<char>>) -> Seq<char>
    decreases names.len(),
{
    if names.len() == 0 {
        Seq::empty()
    } else {
        action_list_xml(names.drop_last()) + action_entry(names.last())
    }
}

/// The AVTransport SCPD document: its action list holds exactly
/// `avt_action_names()`.
pub open spec fn avt_scpd_xml() -> Seq<char> {
    AVT_SCPD_HEAD@ + action_list_xml(avt_action_names()) + AVT_SCPD_TAIL@
}

/// The RenderingControl service description.
pub const RC_SCPD_XML: &'static str = "<?xml version=\"1.0\" encoding=\"UTF-8\"?>\n<scpd xmlns=\"urn:schemas-upnp-org:service-1-0\">\n  <specVersion><major>1</major><minor>0</minor></specVersion>\n  <actionList>\n    <action><name>SetVolume</name></action>\n    <action><name>GetVolume</name></action>\n    <action><name>SetMute</name></action>\n    <action><name>GetMute</name></action>\n  </actionList>\n  <serviceStateTable>\n    <stateVariable sendEvents=\"yes\"><name>LastChange</name><dataType>string</dataType></stateVariable>\n    <stateVariable sendEvents=\"no\"><name>Volume</name><dataType>ui2</dataType></stateVariable>\n    <stateVariable sendEvents=\"no\"><name>Mute</name><dataType>boolean</dataType></stateVariable>\n  </serviceStateTable>\n</scpd>";

/// The ConnectionManager service description.
pub const CM_SCPD_XML: &'static str = "<?xml version=\"1.0\" encoding=\"UTF-8\"?>\n<scpd xmlns=\"urn:schemas-upnp-org:service-1-0\">\n  <specVersion><major>1</major><minor>0</minor></specVersion>\n  <actionList>\n    <action><name>GetProtocolInfo</name></action>\n    <action><name>GetCurrentConnectionIDs</name></action>\n    <action><name>GetCurrentConnectionInfo</name></action>\n  </actionList>\n  <serviceStateTable>\n    <stateVariable sendEvents=\"no\"><name>SourceProtocolInfo</name><dataType>string</dataType></stateVariable>\n    <stateVariable sendEvents=\"no\"><name>SinkProtocolInfo</name><dataType>string</dataType></stateVariable>\n    <stateVariable sendEvents=\"no\"><name>CurrentConnectionIDs</name><dataType>string</dataType></stateVariable>\n  </serviceStateTable>\n</scpd>";

/// `http://{ip}:{port}`.
pub open spec fn base_url(ip: Seq<char>, port: u16) -> Seq<char> {
    "http://"@ + ip + ":"@ + decimal(port as nat)
}

/// The device description XML for the renderer with this UUID, port, friendly
/// name and announced address.
pub open spec fn description_xml(uuid: Seq<char>, port: u16, name: Seq<char>, ip: Seq<char>) -> Seq<char> {
    DESC_HEAD@ + DEVICE_TYPE@ + DESC_AFTER_TYPE@ + xml_escaped(name) + DESC_AFTER_NAME@ + base_url(ip, port)
        + DESC_AFTER_URL@ + uuid + DESC_AFTER_UDN@ + base_url(ip, port) + DESC_AFTER_PRESENTATION@
        + SERVICE_AVT@ + DESC_AFTER_AVT@ + SERVICE_RC@ + DESC_AFTER_RC@ + SERVICE_CM@ + DESC_TAIL@
}

/// The HTTP response carrying an XML document.
pub open spec fn xml_document_response(xml: Seq<char>) -> Seq<char> {
    http_response_text("200 OK"@, "text/xml; charset=\"utf-8\""@, xml)
}

/// The device description response (`/description.xml`).
pub fn device_description(uuid: &str, port: u16, device_name: &str, announce_ip: &str) -> (r: String)
    ensures
        r@ == xml_document_response(description_xml(uuid@, port, device_name@, announce_ip@)),
{
    let mut base = String::new();
    base.append("http://");
    base.append(announce_ip);
    base.append(":");
    push_decimal(&mut base, port as u64);
    let mut xml = String::new();
    xml.append(DESC_HEAD);
    xml.append(DEVICE_TYPE);
    xml.append(DESC_AFTER_TYPE);
    xml.append(xml_escape(device_name).as_str());
    xml.append(DESC_AFTER_NAME);
    xml.append(base.as_str());
    xml.append(DESC_AFTER_URL);
    xml.append(uuid);
    xml.append(DESC_AFTER_UDN);
    xml.append(base.as_str());
    xml.append(DESC_AFTER_PRESENTATION);
    xml.append(SERVICE_AVT);
    xml.append(DESC_AFTER_AVT);
    xml.append(SERVICE_RC);
    xml.append(DESC_AFTER_RC);
    xml.append(SERVICE_CM);
    xml.append(DESC_TAIL);
    http_response("200 OK", "text/xml; charset=\"utf-8\"", xml.as_str())
}

/// The AVTransport SCPD response.
pub fn avt_scpd() -> (r: String)
    ensures
        r@ == xml_document_response(avt_scpd_xml()),
{
    let names: [&str; 13] = ["SetAVTransportURI", "SetNextAVTransportURI", "Play", "Pause", "Stop", "Seek", "Next", "Previous", "GetMediaInfo", "GetPositionInfo", "GetTransportInfo", "GetTransportSettings", "GetDeviceCapabilities"];
    proof {
        assert forall|k: int| 0 <= k < 13 implies #[trigger] names@[k]@ == avt_action_names()[k] by {
            assert(names@ =~= seq!["SetAVTransportURI", "SetNextAVTransportURI", "Play", "Pause", "Stop", "Seek", "Next", "Previous", "GetMediaInfo", "GetPositionInfo", "GetTransportInfo", "GetTransportSettings", "GetDeviceCapabilities"]);
        }
    }
    let mut xml = String::new();
    xml.append(AVT_SCPD_HEAD);
    let mut i: usize = 0;
    while i < 13
        invariant
            i <= 13,
            forall|k: int| 0 <= k < 13 ==> #[trigger] names@[k]@ == avt_action_names()[k],
            xml@ == AVT_SCPD_HEAD@ + action_list_xml(avt_action_names().take(i as int)),
        decreases 13 - i,
    {
        let ghost before = xml@;
        xml.append("    <action><name>");
        xml.append(names[i]);
        xml.append("</name></action>\n");
        proof {
            let t = avt_action_names().take(i + 1);
            assert(t.drop_last() =~= avt_action_names().take(i as int));
            assert(t.last() == names@[i as int]@);
            assert(xml@ =~= AVT_SCPD_HEAD@ + action_list_xml(t));
        }
        i = i + 1;
    }
    proof {
        assert(avt_action_names().take(13) =~= avt_action_names());
    }
    xml.append(AVT_SCPD_TAIL);
    http_response("200 OK", "text/xml; charset=\"utf-8\"", xml.as_str())
}

/// The RenderingControl SCPD response.
pub fn rc_scpd() -> (r: String)
    ensures
        r@ == xml_document_response(RC_SCPD_XML@),
{
    http_response("200 OK", "text/xml; charset=\"utf-8\"", RC_SCPD_XML)
}

/// The ConnectionManager SCPD response.
pub fn cm_scpd() -> (r: String)
    ensures
        r@ == xml_document_response(CM_SCPD_XML@),
{
    http_response("200 OK", "text/xml; charset=\"utf-8\"", CM_SCPD_XML)
}

} // verus!
