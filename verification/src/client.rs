use vstd::prelude::*;
use crate::json::{JsonValue, JsonView, DecodeError, spec_field_u64, spec_field_string};

verus! {

/// One wireless client record as the controller reports it: the station's
/// identity, the access point it is associated to, and its traffic
/// counters.  Any field may arrive as JSON `null`, which reads as the field
/// type's zero value; a missing field fails the decode.
pub struct Client {
    pub ap_mac: String,
    pub ap_name: String,
    pub hostname: String,
    pub client_mac: String,
    pub os_type: String,
    pub os_vendor_type: String,
    pub ip_address: String,
    pub model_name: String,
    pub ssid: String,
    pub vlan: u64,
    pub session_start_time: u64,
    pub rx_bytes: u64,
    pub tx_bytes: u64,
}

pub struct ClientView {
    pub ap_mac: Seq<char>,
    pub ap_name: Seq<char>,
    pub hostname: Seq<char>,
    pub client_mac: Seq<char>,
    pub os_type: Seq<char>,
    pub os_vendor_type: Seq<char>,
    pub ip_address: Seq<char>,
    pub model_name: Seq<char>,
    pub ssid: Seq<char>,
    pub vlan: u64,
    pub session_start_time: u64,
    pub rx_bytes: u64,
    pub tx_bytes: u64,
}

impl View for Client {
    type V = ClientView;

    open spec fn view(&self) -> ClientView {
        ClientView {
            ap_mac: self.ap_mac@,
            ap_name: self.ap_name@,
            hostname: self.hostname@,
            client_mac: self.client_mac@,
            os_type: self.os_type@,
            os_vendor_type: self.os_vendor_type@,
            ip_address: self.ip_address@,
            model_name: self.model_name@,
            ssid: self.ssid@,
            vlan: self.vlan,
            session_start_time: self.session_start_time,
            rx_bytes: self.rx_bytes,
            tx_bytes: self.tx_bytes,
        }
    }
}

/// Whether every field of a client record is present with a value of the
/// right type (or an explicit `null`).
pub open spec fn client_fields_ok(fields: Seq<(Seq<char>, JsonView)>) -> bool {
    &&& spec_field_string(fields, "apMac"@) is Some
    &&& spec_field_string(fields, "apName"@) is Some
    &&& spec_field_string(fields, "hostname"@) is Some
    &&& spec_field_string(fields, "clientMac"@) is Some
    &&& spec_field_string(fields, "osType"@) is Some
    &&& spec_field_string(fields, "osVendorType"@) is Some
    &&& spec_field_string(fields, "ipAddress"@) is Some
    &&& spec_field_string(fields, "modelName"@) is Some
    &&& spec_field_string(fields, "ssid"@) is Some
    &&& spec_field_u64(fields, "vlan"@) is Some
    &&& spec_field_u64(fields, "sessionStartTime"@) is Some
    &&& spec_field_u64(fields, "rxBytes"@) is Some
    &&& spec_field_u64(fields, "txBytes"@) is Some
}

/// The client record read from an object's fields.
pub open spec fn spec_client_of(fields: Seq<(Seq<char>, JsonView)>) -> ClientView {
    ClientView {
        ap_mac: spec_field_string(fields, "apMac"@)->0,
        ap_name: spec_field_string(fields, "apName"@)->0,
        hostname: spec_field_string(fields, "hostname"@)->0,
        client_mac: spec_field_string(fields, "clientMac"@)->0,
        os_type: spec_field_string(fields, "osType"@)->0,
        os_vendor_type: spec_field_string(fields, "osVendorType"@)->0,
        ip_address: spec_field_string(fields, "ipAddress"@)->0,
        model_name: spec_field_string(fields, "modelName"@)->0,
        ssid: spec_field_string(fields, "ssid"@)->0,
        vlan: spec_field_u64(fields, "vlan"@)->0,
        session_start_time: spec_field_u64(fields, "sessionStartTime"@)->0,
        rx_bytes: spec_field_u64(fields, "rxBytes"@)->0,
        tx_bytes: spec_field_u64(fields, "txBytes"@)->0,
    }
}

/// The client record that a JSON document decodes to, if any.
pub open spec fn spec_decode_client(v: JsonView) -> Option<ClientView> {
    match v {
        JsonView::Obj(fields) => if client_fields_ok(fields) {
            Some(spec_client_of(fields))
        } else {
            None
        },
        _ => None,
    }
}

impl Client {
    /// Decodes one client record from a JSON document.  Succeeds exactly
    /// when the document is an object carrying every declared field with a
    /// value of the right type, `null` standing for the type's zero value.
    pub fn decode(v: &JsonValue) -> (r: Result<Client, DecodeError>)
        ensures
            match r {
                Ok(c) => spec_decode_client(v@) == Some(c@),
                Err(e) => {
                    &&& spec_decode_client(v@) is None
                    &&& match e {
                        DecodeError::NotObject => !(v@ is Obj),
                        DecodeError::Field { .. } => v@ is Obj,
                        DecodeError::Syntax { .. } => false,
                    }
                },
            },
    {
        match v {
            JsonValue::Obj(fields) => {
                let c = Client {
                    ap_mac: JsonValue::req_string(fields, "apMac")?,
                    ap_name: JsonValue::req_string(fields, "apName")?,
                    hostname: JsonValue::req_string(fields, "hostname")?,
                    client_mac: JsonValue::req_string(fields, "clientMac")?,
                    os_type: JsonValue::req_string(fields, "osType")?,
                    os_vendor_type: JsonValue::req_string(fields, "osVendorType")?,
                    ip_address: JsonValue::req_string(fields, "ipAddress")?,
                    model_name: JsonValue::req_string(fields, "modelName")?,
                    ssid: JsonValue::req_string(fields, "ssid")?,
                    vlan: JsonValue::req_u64(fields, "vlan")?,
                    session_start_time: JsonValue::req_u64(fields, "sessionStartTime")?,
                    rx_bytes: JsonValue::req_u64(fields, "rxBytes")?,
                    tx_bytes: JsonValue::req_u64(fields, "txBytes")?,
                };
                Ok(c)
            },
            _ => Err(DecodeError::NotObject),
        }
    }
}

} // verus!
