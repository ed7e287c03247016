use vstd::prelude::*;
use crate::json::{
    JsonValue, JsonView, DecodeError, spec_field_u64, spec_field_i64, spec_field_bool,
    spec_field_string,
};

verus! {

/// One access point record as the controller reports it: identity strings,
/// per-band traffic and latency counters, and flagged-health booleans.  Any
/// of these fields may arrive as JSON `null`, which reads as the field
/// type's zero value; a missing field fails the decode.
pub struct AP {
    pub device_name: String,
    pub description: String,
    pub status: String,
    pub ip: String,
    pub model: String,
    pub ap_mac: String,
    pub serial: String,
    pub location: String,
    pub zone_name: String,
    pub last_seen: u64,
    pub uptime: u64,
    pub alerts: u64,
    pub num_clients: u64,
    pub tx: u64,
    pub rx: u64,
    pub tx_rx: u64,
    pub airtime_24g: u64,
    pub airtime_5g: u64,
    pub airtime_6g: u64,
    pub latency_24g: u64,
    pub latency_50g: u64,
    pub latency_6g: u64,
    pub capacity: u64,
    pub connection_failures: u64,
    pub noise_24g: i64,
    pub noise_5g: i64,
    pub noise_6g: i64,
    pub is_overall_health_status_flagged: bool,
    pub is_latency_24g_flagged: bool,
    pub is_latency_50g_flagged: bool,
    pub is_latency_6g_flagged: bool,
}

pub struct ApView {
    pub device_name: Seq<char>,
    pub description: Seq<char>,
    pub status: Seq<char>,
    pub ip: Seq<char>,
    pub model: Seq<char>,
    pub ap_mac: Seq<char>,
    pub serial: Seq<char>,
    pub location: Seq<char>,
    pub zone_name: Seq<char>,
    pub last_seen: u64,
    pub uptime: u64,
    pub alerts: u64,
    pub num_clients: u64,
    pub tx: u64,
    pub rx: u64,
    pub tx_rx: u64,
    pub airtime_24g: u64,
    pub airtime_5g: u64,
    pub airtime_6g: u64,
    pub latency_24g: u64,
    pub latency_50g: u64,
    pub latency_6g: u64,
    pub capacity: u64,
    pub connection_failures: u64,
    pub noise_24g: i64,
    pub noise_5g: i64,
    pub noise_6g: i64,
    pub is_overall_health_status_flagged: bool,
    pub is_latency_24g_flagged: bool,
    pub is_latency_50g_flagged: bool,
    pub is_latency_6g_flagged: bool,
}

impl View for AP {
    type V = ApView;

    open spec fn view(&self) -> ApView {
        ApView {
            device_name: self.device_name@,
            description: self.description@,
            status: self.status@,
            ip: self.ip@,
            model: self.model@,
            ap_mac: self.ap_mac@,
            serial: self.serial@,
            location: self.location@,
            zone_name: self.zone_name@,
            last_seen: self.last_seen,
            uptime: self.uptime,
            alerts: self.alerts,
            num_clients: self.num_clients,
            tx: self.tx,
            rx: self.rx,
            tx_rx: self.tx_rx,
            airtime_24g: self.airtime_24g,
            airtime_5g: self.airtime_5g,
            airtime_6g: self.airtime_6g,
            latency_24g: self.latency_24g,
            latency_50g: self.latency_50g,
            latency_6g: self.latency_6g,
            capacity: self.capacity,
            connection_failures: self.connection_failures,
            noise_24g: self.noise_24g,
            noise_5g: self.noise_5g,
            noise_6g: self.noise_6g,
            is_overall_health_status_flagged: self.is_overall_health_status_flagged,
            is_latency_24g_flagged: self.is_latency_24g_flagged,
            is_latency_50g_flagged: self.is_latency_50g_flagged,
            is_latency_6g_flagged: self.is_latency_6g_flagged,
        }
    }
}

/// Whether every field of an access point record is present with a value of
/// the right type (or an explicit `null`).
pub open spec fn ap_fields_ok(fields: Seq<(Seq<char>, JsonView)>) -> bool {
    &&& spec_field_string(fields, "deviceName"@) is Some
    &&& spec_field_string(fields, "description"@) is Some
    &&& spec_field_string(fields, "status"@) is Some
    &&& spec_field_string(fields, "ip"@) is Some
    &&& spec_field_string(fields, "model"@) is Some
    &&& spec_field_string(fields, "apMac"@) is Some
    &&& spec_field_string(fields, "serial"@) is Some
    &&& spec_field_string(fields, "location"@) is Some
    &&& spec_field_string(fields, "zoneName"@) is Some
    &&& spec_field_u64(fields, "lastSeen"@) is Some
    &&& spec_field_u64(fields, "uptime"@) is Some
    &&& spec_field_u64(fields, "alerts"@) is Some
    &&& spec_field_u64(fields, "numClients"@) is Some
    &&& spec_field_u64(fields, "tx"@) is Some
    &&& spec_field_u64(fields, "rx"@) is Some
    &&& spec_field_u64(fields, "txRx"@) is Some
    &&& spec_field_u64(fields, "airtime24G"@) is Some
    &&& spec_field_u64(fields, "airtime5G"@) is Some
    &&& spec_field_u64(fields, "airtime6G"@) is Some
    &&& spec_field_u64(fields, "latency24G"@) is Some
    &&& spec_field_u64(fields, "latency50G"@) is Some
    &&& spec_field_u64(fields, "latency6G"@) is Some
    &&& spec_field_u64(fields, "capacity"@) is Some
    &&& spec_field_u64(fields, "connectionFailure"@) is Some
    &&& spec_field_i64(fields, "noise24G"@) is Some
    &&& spec_field_i64(fields, "noise5G"@) is Some
    &&& spec_field_i64(fields, "noise6G"@) is Some
    &&& spec_field_bool(fields, "isOverallHealthStatusFlagged"@) is Some
    &&& spec_field_bool(fields, "isLatency24GFlagged"@) is Some
    &&& spec_field_bool(fields, "isLatency50GFlagged"@) is Some
    &&& spec_field_bool(fields, "isLatency6GFlagged"@) is Some
}

/// The access point record read from an object's fields.
pub open spec fn spec_ap_of(fields: Seq<(Seq<char>, JsonView)>) -> ApView {
    ApView {
        device_name: spec_field_string(fields, "deviceName"@)->0,
        description: spec_field_string(fields, "description"@)->0,
        status: spec_field_string(fields, "status"@)->0,
        ip: spec_field_string(fields, "ip"@)->0,
        model: spec_field_string(fields, "model"@)->0,
        ap_mac: spec_field_string(fields, "apMac"@)->0,
        serial: spec_field_string(fields, "serial"@)->0,
        location: spec_field_string(fields, "location"@)->0,
        zone_name: spec_field_string(fields, "zoneName"@)->0,
        last_seen: spec_field_u64(fields, "lastSeen"@)->0,
        uptime: spec_field_u64(fields, "uptime"@)->0,
        alerts: spec_field_u64(fields, "alerts"@)->0,
        num_clients: spec_field_u64(fields, "numClients"@)->0,
        tx: spec_field_u64(fields, "tx"@)->0,
        rx: spec_field_u64(fields, "rx"@)->0,
        tx_rx: spec_field_u64(fields, "txRx"@)->0,
        airtime_24g: spec_field_u64(fields, "airtime24G"@)->0,
        airtime_5g: spec_field_u64(fields, "airtime5G"@)->0,
        airtime_6g: spec_field_u64(fields, "airtime6G"@)->0,
        latency_24g: spec_field_u64(fields, "latency24G"@)->0,
        latency_50g: spec_field_u64(fields, "latency50G"@)->0,
        latency_6g: spec_field_u64(fields, "latency6G"@)->0,
        capacity: spec_field_u64(fields, "capacity"@)->0,
        connection_failures: spec_field_u64(fields, "connectionFailure"@)->0,
        noise_24g: spec_field_i64(fields, "noise24G"@)->0,
        noise_5g: spec_field_i64(fields, "noise5G"@)->0,
        noise_6g: spec_field_i64(fields, "noise6G"@)->0,
        is_overall_health_status_flagged: spec_field_bool(
            fields,
            "isOverallHealthStatusFlagged"@,
        )->0,
        is_latency_24g_flagged: spec_field_bool(fields, "isLatency24GFlagged"@)->0,
        is_latency_50g_flagged: spec_field_bool(fields, "isLatency50GFlagged"@)->0,
        is_latency_6g_flagged: spec_field_bool(fields, "isLatency6GFlagged"@)->0,
    }
}

/// The access point record that a JSON document decodes to, if any: the
/// document must be an object and every declared field must be readable.
pub open spec fn spec_decode_ap(v: JsonView) -> Option<ApView> {
    match v {
        JsonView::Obj(fields) => if ap_fields_ok(fields) {
            Some(spec_ap_of(fields))
        } else {
            None
        },
        _ => None,
    }
}

impl AP {
    /// Decodes one access point record from a JSON document.  Succeeds
    /// exactly when the document is an object carrying every declared field
    /// with a value of the right type, `null` standing for the type's zero
    /// value.
    pub fn decode(v: &JsonValue) -> (r: Result<AP, DecodeError>)
        ensures
            match r {
                Ok(ap) => spec_decode_ap(v@) == Some(ap@),
                Err(e) => {
                    &&& spec_decode_ap(v@) is None
                    &&& match e {
                        DecodeError::NotObject => !(v@ is Obj),
                        DecodeError::Field { .. } => v@ is Obj,
                        DecodeError::Syntax { .. } => false,
                    }
                },
            },
    {
        match v {
            JsonValue::Obj(fields) => {
                let ap = AP {
                    device_name: JsonValue::req_string(fields, "deviceName")?,
                    description: JsonValue::req_string(fields, "description")?,
                    status: JsonValue::req_string(fields, "status")?,
                    ip: JsonValue::req_string(fields, "ip")?,
                    model: JsonValue::req_string(fields, "model")?,
                    ap_mac: JsonValue::req_string(fields, "apMac")?,
                    serial: JsonValue::req_string(fields, "serial")?,
                    location: JsonValue::req_string(fields, "location")?,
                    zone_name: JsonValue::req_string(fields, "zoneName")?,
                    last_seen: JsonValue::req_u64(fields, "lastSeen")?,
                    uptime: JsonValue::req_u64(fields, "uptime")?,
                    alerts: JsonValue::req_u64(fields, "alerts")?,
                    num_clients: JsonValue::req_u64(fields, "numClients")?,
                    tx: JsonValue::req_u64(fields, "tx")?,
                    rx: JsonValue::req_u64(fields, "rx")?,
                    tx_rx: JsonValue::req_u64(fields, "txRx")?,
                    airtime_24g: JsonValue::req_u64(fields, "airtime24G")?,
                    airtime_5g: JsonValue::req_u64(fields, "airtime5G")?,
                    airtime_6g: JsonValue::req_u64(fields, "airtime6G")?,
                    latency_24g: JsonValue::req_u64(fields, "latency24G")?,
                    latency_50g: JsonValue::req_u64(fields, "latency50G")?,
                    latency_6g: JsonValue::req_u64(fields, "latency6G")?,
                    capacity: JsonValue::req_u64(fields, "capacity")?,
                    connection_failures: JsonValue::req_u64(fields, "connectionFailure")?,
                    noise_24g: JsonValue::req_i64(fields, "noise24G")?,
                    noise_5g: JsonValue::req_i64(fields, "noise5G")?,
                    noise_6g: JsonValue::req_i64(fields, "noise6G")?,
                    is_overall_health_status_flagged: JsonValue::req_bool(
                        fields,
                        "isOverallHealthStatusFlagged",
                    )?,
                    is_latency_24g_flagged: JsonValue::req_bool(fields, "isLatency24GFlagged")?,
                    is_latency_50g_flagged: JsonValue::req_bool(fields, "isLatency50GFlagged")?,
                    is_latency_6g_flagged: JsonValue::req_bool(fields, "isLatency6GFlagged")?,
                };
                Ok(ap)
            },
            _ => Err(DecodeError::NotObject),
        }
    }
}

} // verus!
