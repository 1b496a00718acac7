//! Column tables of the viewer: the sessions columns, the columns of the Stats
//! sub-tabs and of the Files tab, and how a list of field names selects columns.
use vstd::prelude::*;
use crate::text::str_to_string;
use crate::app::types::StatsTab;

verus! {

/// A column of the sessions table.
pub struct ColumnDef {
    /// database field name, used in requests
    pub field: String,
    /// expression name, shown to the user
    pub exp: String,
    pub label: String,
    pub width: u16,
}

pub struct ColumnDefView {
    pub field: Seq<char>,
    pub exp: Seq<char>,
    pub label: Seq<char>,
    pub width: u16,
}

impl View for ColumnDef {
    type V = ColumnDefView;

    open spec fn view(&self) -> ColumnDefView {
        ColumnDefView { field: self.field@, exp: self.exp@, label: self.label@, width: self.width }
    }
}

pub open spec fn cv(field: Seq<char>, exp: Seq<char>, label: Seq<char>, width: u16) -> ColumnDefView {
    ColumnDefView { field, exp, label, width }
}

pub open spec fn column_views(s: Seq<ColumnDef>) -> Seq<ColumnDefView> {
    s.map_values(|c: ColumnDef| c@)
}

pub open spec fn str_views(s: Seq<&str>) -> Seq<Seq<char>> {
    s.map_values(|x: &str| x@)
}

pub open spec fn string_views(s: Seq<String>) -> Seq<Seq<char>> {
    s.map_values(|x: String| x@)
}

impl ColumnDef {
    pub fn new(field: &str, exp: &str, label: &str, width: u16) -> (c: ColumnDef)
        ensures
            c@ == cv(field@, exp@, label@, width),
    {
        ColumnDef { field: str_to_string(field), exp: str_to_string(exp), label: str_to_string(label), width }
    }

    /// A copy of the column.
    pub fn duplicate(&self) -> (c: ColumnDef)
        ensures
            c@ == self@,
    {
        ColumnDef { field: self.field.clone(), exp: self.exp.clone(), label: self.label.clone(), width: self.width }
    }
}

/// The sessions columns shown before the user picks any.
pub open spec fn spec_default_columns() -> Seq<ColumnDefView> {
    seq![
        cv("ipProtocol"@, "ip.protocol"@, "IP"@, 4),
        cv("firstPacket"@, "starttime"@, "First Packet"@, 20),
        cv("lastPacket"@, "stoptime"@, "Last Packet"@, 20),
        cv("source.ip"@, "ip.src"@, "Src IP"@, 16),
        cv("source.port"@, "port.src"@, "SrcPort"@, 7),
        cv("destination.ip"@, "ip.dst"@, "Dst IP"@, 16),
        cv("destination.port"@, "port.dst"@, "DstPort"@, 7),
        cv("protocol"@, "protocols"@, "Protocols"@, 20),
        cv("source.packets"@, "packets.src"@, "Src Pkts"@, 9),
        cv("destination.packets"@, "packets.dst"@, "Dst Pkts"@, 9),
        cv("source.bytes"@, "bytes.src"@, "Src Bytes"@, 10),
        cv("destination.bytes"@, "bytes.dst"@, "Dst Bytes"@, 10),
    ]
}

pub fn default_columns() -> (v: Vec<ColumnDef>)
    ensures
        column_views(v@) == spec_default_columns(),
{
    let v = vec![
        ColumnDef::new("ipProtocol", "ip.protocol", "IP", 4),
        ColumnDef::new("firstPacket", "starttime", "First Packet", 20),
        ColumnDef::new("lastPacket", "stoptime", "Last Packet", 20),
        ColumnDef::new("source.ip", "ip.src", "Src IP", 16),
        ColumnDef::new("source.port", "port.src", "SrcPort", 7),
        ColumnDef::new("destination.ip", "ip.dst", "Dst IP", 16),
        ColumnDef::new("destination.port", "port.dst", "DstPort", 7),
        ColumnDef::new("protocol", "protocols", "Protocols", 20),
        ColumnDef::new("source.packets", "packets.src", "Src Pkts", 9),
        ColumnDef::new("destination.packets", "packets.dst", "Dst Pkts", 9),
        ColumnDef::new("source.bytes", "bytes.src", "Src Bytes", 10),
        ColumnDef::new("destination.bytes", "bytes.dst", "Dst Bytes", 10),
    ];
    assert(column_views(v@) =~= spec_default_columns());
    v
}

/// An entry of the sessions column editor.
pub struct ColumnEditorItem {
    pub db_field: String,
    pub exp: String,
    pub friendly_name: String,
    pub enabled: bool,
}

pub struct ColumnEditorItemView {
    pub db_field: Seq<char>,
    pub exp: Seq<char>,
    pub friendly_name: Seq<char>,
    pub enabled: bool,
}

impl View for ColumnEditorItem {
    type V = ColumnEditorItemView;

    open spec fn view(&self) -> ColumnEditorItemView {
        ColumnEditorItemView {
            db_field: self.db_field@,
            exp: self.exp@,
            friendly_name: self.friendly_name@,
            enabled: self.enabled,
        }
    }
}

pub open spec fn spec_width_for_field(field_type: Seq<char>) -> u16 {
    if field_type == "ip"@ {
        16
    } else if field_type == "integer"@ {
        10
    } else if field_type == "seconds"@ || field_type == "date"@ {
        20
    } else {
        16
    }
}

/// A column width suited to a field's type.
pub fn width_for_field(field_type: &str) -> (w: u16)
    ensures
        w == spec_width_for_field(field_type@),
{
    let t = str_to_string(field_type);
    if crate::text::string_eq_str(&t, "ip") {
        16
    } else if crate::text::string_eq_str(&t, "integer") {
        10
    } else if crate::text::string_eq_str(&t, "seconds") || crate::text::string_eq_str(&t, "date") {
        20
    } else {
        16
    }
}

/// A sessions layout saved on the server.
pub struct SavedLayout {
    pub name: String,
    pub columns: Vec<String>,
    pub sort_field: String,
    pub sort_dir: String,
}

/// How a cell of a Stats or Files table is formatted.
#[derive(Clone, Copy, PartialEq, Eq, Structural, Debug)]
pub enum StatsFormat {
    Text,
    Number,
    Bytes,
    BytesPerSec,
    MegaBytes,
    Percent,
    EpochSecs,
    EpochMs,
    SizeString,
    Boolean,
    PercentSuffix,
    Nanos,
}

/// A column of a Stats sub-tab or of the Files tab.
pub struct StatsColumnDef {
    pub field: String,
    pub sort: String,
    pub label: String,
    pub width: u16,
    pub format: StatsFormat,
}

pub struct StatsColumnDefView {
    pub field: Seq<char>,
    pub sort: Seq<char>,
    pub label: Seq<char>,
    pub width: u16,
    pub format: StatsFormat,
}

impl View for StatsColumnDef {
    type V = StatsColumnDefView;

    open spec fn view(&self) -> StatsColumnDefView {
        StatsColumnDefView {
            field: self.field@,
            sort: self.sort@,
            label: self.label@,
            width: self.width,
            format: self.format,
        }
    }
}

pub open spec fn scv(field: Seq<char>, sort: Seq<char>, label: Seq<char>, width: u16, format: StatsFormat) -> StatsColumnDefView {
    StatsColumnDefView { field, sort, label, width, format }
}

pub open spec fn stats_views(s: Seq<StatsColumnDef>) -> Seq<StatsColumnDefView> {
    s.map_values(|c: StatsColumnDef| c@)
}

impl StatsColumnDef {
    pub fn new(field: &str, sort: &str, label: &str, width: u16, format: StatsFormat) -> (c: StatsColumnDef)
        ensures
            c@ == scv(field@, sort@, label@, width, format),
    {
        StatsColumnDef {
            field: str_to_string(field),
            sort: str_to_string(sort),
            label: str_to_string(label),
            width,
            format,
        }
    }

    /// Whether the column holds numbers (every format but plain text), which are right-aligned.
    pub fn is_numeric(&self) -> (b: bool)
        ensures
            b == (self.format != StatsFormat::Text),
    {
        self.format != StatsFormat::Text
    }

    /// A copy of the column.
    pub fn duplicate(&self) -> (c: StatsColumnDef)
        ensures
            c@ == self@,
    {
        StatsColumnDef {
            field: self.field.clone(),
            sort: self.sort.clone(),
            label: self.label.clone(),
            width: self.width,
            format: self.format,
        }
    }
}

/// An entry of the Stats or Files column editor.
pub struct StatsColumnEditorItem {
    pub field: String,
    pub label: String,
    pub enabled: bool,
}

pub struct StatsColumnEditorItemView {
    pub field: Seq<char>,
    pub label: Seq<char>,
    pub enabled: bool,
}

impl View for StatsColumnEditorItem {
    type V = StatsColumnEditorItemView;

    open spec fn view(&self) -> StatsColumnEditorItemView {
        StatsColumnEditorItemView { field: self.field@, label: self.label@, enabled: self.enabled }
    }
}

/// A column layout of a Stats sub-tab or of the Files tab, saved on the server.
pub struct SavedShareable {
    pub id: String,
    pub name: String,
    pub columns: Vec<String>,
    pub sort_field: String,
    pub sort_dir: String,
    pub shared: bool,
}

/// Every column that the Capture Stats table can show; the default ones come first.
pub open spec fn spec_capture_all_columns() -> Seq<StatsColumnDefView> {
    seq![
        scv("nodeName"@, "nodeName"@, "Node"@, 20, StatsFormat::Text),
        scv("currentTime"@, "currentTime"@, "Time"@, 20, StatsFormat::EpochSecs),
        scv("monitoring"@, "monitoring"@, "Sessions"@, 10, StatsFormat::Number),
        scv("freeSpaceM"@, "freeSpaceM"@, "Free Space"@, 16, StatsFormat::MegaBytes),
        scv("cpu"@, "cpu"@, "CPU"@, 8, StatsFormat::Percent),
        scv("memory"@, "memory"@, "Memory"@, 16, StatsFormat::Bytes),
        scv("packetQueue"@, "packetQueue"@, "Pkt Queue"@, 10, StatsFormat::Number),
        scv("diskQueue"@, "diskQueue"@, "Disk Queue"@, 10, StatsFormat::Number),
        scv("esQueue"@, "esQueue"@, "ES Queue"@, 10, StatsFormat::Number),
        scv("deltaPackets"@, "deltaPacketsPerSec"@, "ΔPackets"@, 10, StatsFormat::Number),
        scv("deltaBytesPerSec"@, "deltaBytesPerSec"@, "Bytes/Sec"@, 12, StatsFormat::BytesPerSec),
        scv("deltaSessions"@, "deltaSessionsPerSec"@, "ΔSessions"@, 10, StatsFormat::Number),
        scv("deltaDropped"@, "deltaDroppedPerSec"@, "ΔDropped"@, 10, StatsFormat::Number),
        scv("deltaBitsPerSec"@, "deltaBitsPerSec"@, "Bits/Sec"@, 12, StatsFormat::Number),
        scv("deltaWrittenBytesPerSec"@, "deltaWrittenBytesPerSec"@, "Written/Sec"@, 12, StatsFormat::BytesPerSec),
        scv("deltaUnwrittenBytesPerSec"@, "deltaUnwrittenBytesPerSec"@, "Unwritten/Sec"@, 14, StatsFormat::BytesPerSec),
        scv("tcpSessions"@, "tcpSessions"@, "TCP Sess"@, 10, StatsFormat::Number),
        scv("udpSessions"@, "udpSessions"@, "UDP Sess"@, 10, StatsFormat::Number),
        scv("icmpSessions"@, "icmpSessions"@, "ICMP Sess"@, 10, StatsFormat::Number),
        scv("sctpSessions"@, "sctpSessions"@, "SCTP Sess"@, 10, StatsFormat::Number),
        scv("espSessions"@, "espSessions"@, "ESP Sess"@, 10, StatsFormat::Number),
        scv("usedSpaceM"@, "usedSpaceM"@, "Used Space"@, 12, StatsFormat::MegaBytes),
        scv("esHealthMS"@, "esHealthMS"@, "ES Health MS"@, 12, StatsFormat::Number),
        scv("closeQueue"@, "closeQueue"@, "Close Queue"@, 12, StatsFormat::Number),
        scv("needSave"@, "needSave"@, "Need Save"@, 10, StatsFormat::Number),
        scv("frags"@, "frags"@, "Frags"@, 10, StatsFormat::Number),
        scv("deltaFragsDroppedPerSec"@, "deltaFragsDroppedPerSec"@, "ΔFragsDropped"@, 14, StatsFormat::Number),
        scv("deltaTotalDroppedPerSec"@, "deltaTotalDroppedPerSec"@, "ΔTotalDropped"@, 14, StatsFormat::Number),
        scv("deltaSessionBytesPerSec"@, "deltaSessionBytesPerSec"@, "SessBytes/Sec"@, 14, StatsFormat::BytesPerSec),
        scv("deltaOverloadDropped"@, "deltaOverloadDropped"@, "ΔOverloadDrop"@, 14, StatsFormat::Number),
        scv("deltaDupDroppedPerSec"@, "deltaDupDroppedPerSec"@, "ΔDupDropped"@, 12, StatsFormat::Number),
        scv("deltaESDroppedPerSec"@, "deltaESDroppedPerSec"@, "ΔESDropped"@, 12, StatsFormat::Number),
        scv("sessionSizePerSec"@, "sessionSizePerSec"@, "SessSize/Sec"@, 12, StatsFormat::Number),
        scv("retention"@, "retention"@, "Retention"@, 10, StatsFormat::Number),
        scv("startTime"@, "startTime"@, "Start Time"@, 20, StatsFormat::EpochSecs),
        scv("runningTime"@, "runningTime"@, "Running Time"@, 20, StatsFormat::Number),
        scv("ver"@, "ver"@, "Version"@, 14, StatsFormat::Text),
    ]
}

pub fn capture_all_columns() -> (v: Vec<StatsColumnDef>)
    ensures
        stats_views(v@) == spec_capture_all_columns(),
{
    let v = vec![
        StatsColumnDef::new("nodeName", "nodeName", "Node", 20, StatsFormat::Text),
        StatsColumnDef::new("currentTime", "currentTime", "Time", 20, StatsFormat::EpochSecs),
        StatsColumnDef::new("monitoring", "monitoring", "Sessions", 10, StatsFormat::Number),
        StatsColumnDef::new("freeSpaceM", "freeSpaceM", "Free Space", 16, StatsFormat::MegaBytes),
        StatsColumnDef::new("cpu", "cpu", "CPU", 8, StatsFormat::Percent),
        StatsColumnDef::new("memory", "memory", "Memory", 16, StatsFormat::Bytes),
        StatsColumnDef::new("packetQueue", "packetQueue", "Pkt Queue", 10, StatsFormat::Number),
        StatsColumnDef::new("diskQueue", "diskQueue", "Disk Queue", 10, StatsFormat::Number),
        StatsColumnDef::new("esQueue", "esQueue", "ES Queue", 10, StatsFormat::Number),
        StatsColumnDef::new("deltaPackets", "deltaPacketsPerSec", "ΔPackets", 10, StatsFormat::Number),
        StatsColumnDef::new("deltaBytesPerSec", "deltaBytesPerSec", "Bytes/Sec", 12, StatsFormat::BytesPerSec),
        StatsColumnDef::new("deltaSessions", "deltaSessionsPerSec", "ΔSessions", 10, StatsFormat::Number),
        StatsColumnDef::new("deltaDropped", "deltaDroppedPerSec", "ΔDropped", 10, StatsFormat::Number),
        StatsColumnDef::new("deltaBitsPerSec", "deltaBitsPerSec", "Bits/Sec", 12, StatsFormat::Number),
        StatsColumnDef::new("deltaWrittenBytesPerSec", "deltaWrittenBytesPerSec", "Written/Sec", 12, StatsFormat::BytesPerSec),
        StatsColumnDef::new("deltaUnwrittenBytesPerSec", "deltaUnwrittenBytesPerSec", "Unwritten/Sec", 14, StatsFormat::BytesPerSec),
        StatsColumnDef::new("tcpSessions", "tcpSessions", "TCP Sess", 10, StatsFormat::Number),
        StatsColumnDef::new("udpSessions", "udpSessions", "UDP Sess", 10, StatsFormat::Number),
        StatsColumnDef::new("icmpSessions", "icmpSessions", "ICMP Sess", 10, StatsFormat::Number),
        StatsColumnDef::new("sctpSessions", "sctpSessions", "SCTP Sess", 10, StatsFormat::Number),
        StatsColumnDef::new("espSessions", "espSessions", "ESP Sess", 10, StatsFormat::Number),
        StatsColumnDef::new("usedSpaceM", "usedSpaceM", "Used Space", 12, StatsFormat::MegaBytes),
        StatsColumnDef::new("esHealthMS", "esHealthMS", "ES Health MS", 12, StatsFormat::Number),
        StatsColumnDef::new("closeQueue", "closeQueue", "Close Queue", 12, StatsFormat::Number),
        StatsColumnDef::new("needSave", "needSave", "Need Save", 10, StatsFormat::Number),
        StatsColumnDef::new("frags", "frags", "Frags", 10, StatsFormat::Number),
        StatsColumnDef::new("deltaFragsDroppedPerSec", "deltaFragsDroppedPerSec", "ΔFragsDropped", 14, StatsFormat::Number),
        StatsColumnDef::new("deltaTotalDroppedPerSec", "deltaTotalDroppedPerSec", "ΔTotalDropped", 14, StatsFormat::Number),
        StatsColumnDef::new("deltaSessionBytesPerSec", "deltaSessionBytesPerSec", "SessBytes/Sec", 14, StatsFormat::BytesPerSec),
        StatsColumnDef::new("deltaOverloadDropped", "deltaOverloadDropped", "ΔOverloadDrop", 14, StatsFormat::Number),
        StatsColumnDef::new("deltaDupDroppedPerSec", "deltaDupDroppedPerSec", "ΔDupDropped", 12, StatsFormat::Number),
        StatsColumnDef::new("deltaESDroppedPerSec", "deltaESDroppedPerSec", "ΔESDropped", 12, StatsFormat::Number),
        StatsColumnDef::new("sessionSizePerSec", "sessionSizePerSec", "SessSize/Sec", 12, StatsFormat::Number),
        StatsColumnDef::new("retention", "retention", "Retention", 10, StatsFormat::Number),
        StatsColumnDef::new("startTime", "startTime", "Start Time", 20, StatsFormat::EpochSecs),
        StatsColumnDef::new("runningTime", "runningTime", "Running Time", 20, StatsFormat::Number),
        StatsColumnDef::new("ver", "ver", "Version", 14, StatsFormat::Text),
    ];
    assert(stats_views(v@) =~= spec_capture_all_columns());
    v
}

/// The fields of the Capture Stats columns shown by default, in order.
pub open spec fn spec_capture_default_fields() -> Seq<Seq<char>> {
    seq!["nodeName"@, "currentTime"@, "monitoring"@, "freeSpaceM"@, "cpu"@, "memory"@, "packetQueue"@, "diskQueue"@, "esQueue"@, "deltaPackets"@, "deltaBytesPerSec"@, "deltaSessions"@, "deltaDropped"@]
}

pub fn capture_default_fields() -> (v: Vec<&'static str>)
    ensures
        str_views(v@) == spec_capture_default_fields(),
{
    let v = vec!["nodeName", "currentTime", "monitoring", "freeSpaceM", "cpu", "memory", "packetQueue", "diskQueue", "esQueue", "deltaPackets", "deltaBytesPerSec", "deltaSessions", "deltaDropped"];
    assert(str_views(v@) =~= spec_capture_default_fields());
    v
}

/// Every column that the DB Nodes table can show; the default ones come first.
pub open spec fn spec_esnodes_all_columns() -> Seq<StatsColumnDefView> {
    seq![
        scv("name"@, "nodeName"@, "Node"@, 20, StatsFormat::Text),
        scv("docs"@, "docs"@, "Docs"@, 12, StatsFormat::Number),
        scv("storeSize"@, "storeSize"@, "Disk Used"@, 12, StatsFormat::Bytes),
        scv("freeSize"@, "freeSize"@, "Free Size"@, 12, StatsFormat::Bytes),
        scv("heapSize"@, "heapSize"@, "Heap Size"@, 12, StatsFormat::Bytes),
        scv("load"@, "load"@, "Load"@, 10, StatsFormat::Number),
        scv("cpu"@, "cpu"@, "CPU"@, 8, StatsFormat::Percent),
        scv("read"@, "read"@, "Read"@, 10, StatsFormat::Bytes),
        scv("write"@, "write"@, "Write"@, 10, StatsFormat::Bytes),
        scv("searches"@, "searches"@, "Searches"@, 10, StatsFormat::Number),
        scv("scrolls"@, "scrolls"@, "Scrolls"@, 10, StatsFormat::Number),
        scv("ip"@, "ip"@, "IP"@, 16, StatsFormat::Text),
        scv("ipExcluded"@, "ipExcluded"@, "IP Excluded"@, 12, StatsFormat::Text),
        scv("nodeExcluded"@, "nodeExcluded"@, "Node Excluded"@, 14, StatsFormat::Text),
        scv("nonHeapSize"@, "nonHeapSize"@, "Non-Heap"@, 12, StatsFormat::Bytes),
        scv("searchesTime"@, "searchesTime"@, "Search Time"@, 12, StatsFormat::Number),
        scv("writesRejectedDelta"@, "writesRejectedDelta"@, "Writes Rej Δ"@, 12, StatsFormat::Number),
        scv("writesCompleted"@, "writesCompleted"@, "Writes Done"@, 12, StatsFormat::Number),
        scv("writesCompletedDelta"@, "writesCompletedDelta"@, "Writes Done Δ"@, 14, StatsFormat::Number),
        scv("writesQueueSize"@, "writesQueueSize"@, "Write Queue"@, 12, StatsFormat::Number),
        scv("molochtype"@, "molochtype"@, "Type"@, 10, StatsFormat::Text),
        scv("molochzone"@, "molochzone"@, "Zone"@, 10, StatsFormat::Text),
        scv("shards"@, "shards"@, "Shards"@, 8, StatsFormat::Number),
        scv("segments"@, "segments"@, "Segments"@, 10, StatsFormat::Number),
        scv("uptime"@, "uptime"@, "Uptime"@, 10, StatsFormat::Number),
        scv("version"@, "version"@, "Version"@, 12, StatsFormat::Text),
        scv("writesRejected"@, "writesRejected"@, "Writes Rejected"@, 14, StatsFormat::Number),
    ]
}

pub fn esnodes_all_columns() -> (v: Vec<StatsColumnDef>)
    ensures
        stats_views(v@) == spec_esnodes_all_columns(),
{
    let v = vec![
        StatsColumnDef::new("name", "nodeName", "Node", 20, StatsFormat::Text),
        StatsColumnDef::new("docs", "docs", "Docs", 12, StatsFormat::Number),
        StatsColumnDef::new("storeSize", "storeSize", "Disk Used", 12, StatsFormat::Bytes),
        StatsColumnDef::new("freeSize", "freeSize", "Free Size", 12, StatsFormat::Bytes),
        StatsColumnDef::new("heapSize", "heapSize", "Heap Size", 12, StatsFormat::Bytes),
        StatsColumnDef::new("load", "load", "Load", 10, StatsFormat::Number),
        StatsColumnDef::new("cpu", "cpu", "CPU", 8, StatsFormat::Percent),
        StatsColumnDef::new("read", "read", "Read", 10, StatsFormat::Bytes),
        StatsColumnDef::new("write", "write", "Write", 10, StatsFormat::Bytes),
        StatsColumnDef::new("searches", "searches", "Searches", 10, StatsFormat::Number),
        StatsColumnDef::new("scrolls", "scrolls", "Scrolls", 10, StatsFormat::Number),
        StatsColumnDef::new("ip", "ip", "IP", 16, StatsFormat::Text),
        StatsColumnDef::new("ipExcluded", "ipExcluded", "IP Excluded", 12, StatsFormat::Text),
        StatsColumnDef::new("nodeExcluded", "nodeExcluded", "Node Excluded", 14, StatsFormat::Text),
        StatsColumnDef::new("nonHeapSize", "nonHeapSize", "Non-Heap", 12, StatsFormat::Bytes),
        StatsColumnDef::new("searchesTime", "searchesTime", "Search Time", 12, StatsFormat::Number),
        StatsColumnDef::new("writesRejectedDelta", "writesRejectedDelta", "Writes Rej Δ", 12, StatsFormat::Number),
        StatsColumnDef::new("writesCompleted", "writesCompleted", "Writes Done", 12, StatsFormat::Number),
        StatsColumnDef::new("writesCompletedDelta", "writesCompletedDelta", "Writes Done Δ", 14, StatsFormat::Number),
        StatsColumnDef::new("writesQueueSize", "writesQueueSize", "Write Queue", 12, StatsFormat::Number),
        StatsColumnDef::new("molochtype", "molochtype", "Type", 10, StatsFormat::Text),
        StatsColumnDef::new("molochzone", "molochzone", "Zone", 10, StatsFormat::Text),
        StatsColumnDef::new("shards", "shards", "Shards", 8, StatsFormat::Number),
        StatsColumnDef::new("segments", "segments", "Segments", 10, StatsFormat::Number),
        StatsColumnDef::new("uptime", "uptime", "Uptime", 10, StatsFormat::Number),
        StatsColumnDef::new("version", "version", "Version", 12, StatsFormat::Text),
        StatsColumnDef::new("writesRejected", "writesRejected", "Writes Rejected", 14, StatsFormat::Number),
    ];
    assert(stats_views(v@) =~= spec_esnodes_all_columns());
    v
}

/// The fields of the DB Nodes columns shown by default, in order.
pub open spec fn spec_esnodes_default_fields() -> Seq<Seq<char>> {
    seq!["name"@, "docs"@, "storeSize"@, "freeSize"@, "heapSize"@, "load"@, "cpu"@, "read"@, "write"@, "searches"@]
}

pub fn esnodes_default_fields() -> (v: Vec<&'static str>)
    ensures
        str_views(v@) == spec_esnodes_default_fields(),
{
    let v = vec!["name", "docs", "storeSize", "freeSize", "heapSize", "load", "cpu", "read", "write", "searches"];
    assert(str_views(v@) =~= spec_esnodes_default_fields());
    v
}

/// Every column that the DB Indices table can show; the default ones come first.
pub open spec fn spec_esindices_all_columns() -> Seq<StatsColumnDefView> {
    seq![
        scv("index"@, "index"@, "Index"@, 40, StatsFormat::Text),
        scv("docs.count"@, "docs.count"@, "Docs"@, 14, StatsFormat::Number),
        scv("store.size"@, "store.size"@, "Disk Size"@, 14, StatsFormat::SizeString),
        scv("pri"@, "pri"@, "Shards"@, 8, StatsFormat::Number),
        scv("segmentsCount"@, "segmentsCount"@, "Segments"@, 10, StatsFormat::Number),
        scv("rep"@, "rep"@, "Replicas"@, 10, StatsFormat::Number),
        scv("memoryTotal"@, "memoryTotal"@, "Memory"@, 12, StatsFormat::Bytes),
        scv("health"@, "health"@, "Health"@, 10, StatsFormat::Text),
        scv("status"@, "status"@, "Status"@, 10, StatsFormat::Text),
        scv("cd"@, "cd"@, "Created"@, 20, StatsFormat::EpochSecs),
        scv("pri.search.query_current"@, "pri.search.query_current"@, "Queries"@, 10, StatsFormat::Number),
        scv("uuid"@, "uuid"@, "UUID"@, 12, StatsFormat::Text),
        scv("molochtype"@, "molochtype"@, "Type"@, 10, StatsFormat::Text),
        scv("shardsPerNode"@, "shardsPerNode"@, "Shards/Node"@, 12, StatsFormat::Text),
        scv("versionCreated"@, "versionCreated"@, "Version"@, 12, StatsFormat::Text),
        scv("docSize"@, "docSize"@, "Doc Size"@, 10, StatsFormat::Number),
    ]
}

pub fn esindices_all_columns() -> (v: Vec<StatsColumnDef>)
    ensures
        stats_views(v@) == spec_esindices_all_columns(),
{
    let v = vec![
        StatsColumnDef::new("index", "index", "Index", 40, StatsFormat::Text),
        StatsColumnDef::new("docs.count", "docs.count", "Docs", 14, StatsFormat::Number),
        StatsColumnDef::new("store.size", "store.size", "Disk Size", 14, StatsFormat::SizeString),
        StatsColumnDef::new("pri", "pri", "Shards", 8, StatsFormat::Number),
        StatsColumnDef::new("segmentsCount", "segmentsCount", "Segments", 10, StatsFormat::Number),
        StatsColumnDef::new("rep", "rep", "Replicas", 10, StatsFormat::Number),
        StatsColumnDef::new("memoryTotal", "memoryTotal", "Memory", 12, StatsFormat::Bytes),
        StatsColumnDef::new("health", "health", "Health", 10, StatsFormat::Text),
        StatsColumnDef::new("status", "status", "Status", 10, StatsFormat::Text),
        StatsColumnDef::new("cd", "cd", "Created", 20, StatsFormat::EpochSecs),
        StatsColumnDef::new("pri.search.query_current", "pri.search.query_current", "Queries", 10, StatsFormat::Number),
        StatsColumnDef::new("uuid", "uuid", "UUID", 12, StatsFormat::Text),
        StatsColumnDef::new("molochtype", "molochtype", "Type", 10, StatsFormat::Text),
        StatsColumnDef::new("shardsPerNode", "shardsPerNode", "Shards/Node", 12, StatsFormat::Text),
        StatsColumnDef::new("versionCreated", "versionCreated", "Version", 12, StatsFormat::Text),
        StatsColumnDef::new("docSize", "docSize", "Doc Size", 10, StatsFormat::Number),
    ];
    assert(stats_views(v@) =~= spec_esindices_all_columns());
    v
}

/// The fields of the DB Indices columns shown by default, in order.
pub open spec fn spec_esindices_default_fields() -> Seq<Seq<char>> {
    seq!["index"@, "docs.count"@, "store.size"@, "pri"@, "segmentsCount"@, "rep"@, "memoryTotal"@, "health"@, "status"@]
}

pub fn esindices_default_fields() -> (v: Vec<&'static str>)
    ensures
        str_views(v@) == spec_esindices_default_fields(),
{
    let v = vec!["index", "docs.count", "store.size", "pri", "segmentsCount", "rep", "memoryTotal", "health", "status"];
    assert(str_views(v@) =~= spec_esindices_default_fields());
    v
}

/// Every column that the DB Tasks table can show; the default ones come first.
pub open spec fn spec_estasks_all_columns() -> Seq<StatsColumnDefView> {
    seq![
        scv("action"@, "action"@, "Action"@, 30, StatsFormat::Text),
        scv("description"@, "description"@, "Description"@, 50, StatsFormat::Text),
        scv("start_time_in_millis"@, "start_time_in_millis"@, "Start Time"@, 20, StatsFormat::EpochMs),
        scv("running_time_in_nanos"@, "running_time_in_nanos"@, "Running Time"@, 14, StatsFormat::Nanos),
        scv("childrenCount"@, "childrenCount"@, "Children"@, 10, StatsFormat::Number),
        scv("user"@, "user"@, "User"@, 16, StatsFormat::Text),
        scv("cancellable"@, "cancellable"@, "Cancellable"@, 12, StatsFormat::Boolean),
        scv("id"@, "id"@, "ID"@, 24, StatsFormat::Text),
        scv("node"@, "node"@, "Node"@, 20, StatsFormat::Text),
        scv("taskId"@, "taskId"@, "Task ID"@, 30, StatsFormat::Text),
        scv("type"@, "type"@, "Type"@, 14, StatsFormat::Text),
    ]
}

pub fn estasks_all_columns() -> (v: Vec<StatsColumnDef>)
    ensures
        stats_views(v@) == spec_estasks_all_columns(),
{
    let v = vec![
        StatsColumnDef::new("action", "action", "Action", 30, StatsFormat::Text),
        StatsColumnDef::new("description", "description", "Description", 50, StatsFormat::Text),
        StatsColumnDef::new("start_time_in_millis", "start_time_in_millis", "Start Time", 20, StatsFormat::EpochMs),
        StatsColumnDef::new("running_time_in_nanos", "running_time_in_nanos", "Running Time", 14, StatsFormat::Nanos),
        StatsColumnDef::new("childrenCount", "childrenCount", "Children", 10, StatsFormat::Number),
        StatsColumnDef::new("user", "user", "User", 16, StatsFormat::Text),
        StatsColumnDef::new("cancellable", "cancellable", "Cancellable", 12, StatsFormat::Boolean),
        StatsColumnDef::new("id", "id", "ID", 24, StatsFormat::Text),
        StatsColumnDef::new("node", "node", "Node", 20, StatsFormat::Text),
        StatsColumnDef::new("taskId", "taskId", "Task ID", 30, StatsFormat::Text),
        StatsColumnDef::new("type", "type", "Type", 14, StatsFormat::Text),
    ];
    assert(stats_views(v@) =~= spec_estasks_all_columns());
    v
}

/// The fields of the DB Tasks columns shown by default, in order.
pub open spec fn spec_estasks_default_fields() -> Seq<Seq<char>> {
    seq!["action"@, "description"@, "start_time_in_millis"@, "running_time_in_nanos"@, "childrenCount"@, "user"@]
}

pub fn estasks_default_fields() -> (v: Vec<&'static str>)
    ensures
        str_views(v@) == spec_estasks_default_fields(),
{
    let v = vec!["action", "description", "start_time_in_millis", "running_time_in_nanos", "childrenCount", "user"];
    assert(str_views(v@) =~= spec_estasks_default_fields());
    v
}

/// Every column that the DB Recovery table can show; the default ones come first.
pub open spec fn spec_esrecovery_all_columns() -> Seq<StatsColumnDefView> {
    seq![
        scv("index"@, "index"@, "Index"@, 30, StatsFormat::Text),
        scv("shard"@, "shard"@, "Shard"@, 6, StatsFormat::Number),
        scv("time"@, "time"@, "Time"@, 10, StatsFormat::Text),
        scv("type"@, "type"@, "Type"@, 14, StatsFormat::Text),
        scv("stage"@, "stage"@, "Stage"@, 12, StatsFormat::Text),
        scv("source_host"@, "source_host"@, "Source Host"@, 16, StatsFormat::Text),
        scv("source_node"@, "source_node"@, "Source Node"@, 18, StatsFormat::Text),
        scv("target_host"@, "target_host"@, "Target Host"@, 16, StatsFormat::Text),
        scv("target_node"@, "target_node"@, "Target Node"@, 18, StatsFormat::Text),
        scv("files"@, "files"@, "Files"@, 8, StatsFormat::Number),
        scv("files_recovered"@, "files_recovered"@, "Files Recov"@, 12, StatsFormat::Number),
        scv("files_percent"@, "files_percent"@, "Files %"@, 8, StatsFormat::PercentSuffix),
        scv("files_total"@, "files_total"@, "Files Total"@, 12, StatsFormat::Number),
        scv("bytes"@, "bytes"@, "Bytes"@, 12, StatsFormat::Bytes),
        scv("bytes_recovered"@, "bytes_recovered"@, "Bytes Recov"@, 12, StatsFormat::Bytes),
        scv("bytes_percent"@, "bytes_percent"@, "Bytes %"@, 8, StatsFormat::PercentSuffix),
        scv("bytes_total"@, "bytes_total"@, "Bytes Total"@, 12, StatsFormat::Bytes),
        scv("translog_ops"@, "translog_ops"@, "Translog Ops"@, 12, StatsFormat::Number),
        scv("translog_ops_recovered"@, "translog_ops_recovered"@, "TLog Recov"@, 12, StatsFormat::Number),
        scv("translog_ops_percent"@, "translog_ops_percent"@, "TLog %"@, 8, StatsFormat::PercentSuffix),
    ]
}

pub fn esrecovery_all_columns() -> (v: Vec<StatsColumnDef>)
    ensures
        stats_views(v@) == spec_esrecovery_all_columns(),
{
    let v = vec![
        StatsColumnDef::new("index", "index", "Index", 30, StatsFormat::Text),
        StatsColumnDef::new("shard", "shard", "Shard", 6, StatsFormat::Number),
        StatsColumnDef::new("time", "time", "Time", 10, StatsFormat::Text),
        StatsColumnDef::new("type", "type", "Type", 14, StatsFormat::Text),
        StatsColumnDef::new("stage", "stage", "Stage", 12, StatsFormat::Text),
        StatsColumnDef::new("source_host", "source_host", "Source Host", 16, StatsFormat::Text),
        StatsColumnDef::new("source_node", "source_node", "Source Node", 18, StatsFormat::Text),
        StatsColumnDef::new("target_host", "target_host", "Target Host", 16, StatsFormat::Text),
        StatsColumnDef::new("target_node", "target_node", "Target Node", 18, StatsFormat::Text),
        StatsColumnDef::new("files", "files", "Files", 8, StatsFormat::Number),
        StatsColumnDef::new("files_recovered", "files_recovered", "Files Recov", 12, StatsFormat::Number),
        StatsColumnDef::new("files_percent", "files_percent", "Files %", 8, StatsFormat::PercentSuffix),
        StatsColumnDef::new("files_total", "files_total", "Files Total", 12, StatsFormat::Number),
        StatsColumnDef::new("bytes", "bytes", "Bytes", 12, StatsFormat::Bytes),
        StatsColumnDef::new("bytes_recovered", "bytes_recovered", "Bytes Recov", 12, StatsFormat::Bytes),
        StatsColumnDef::new("bytes_percent", "bytes_percent", "Bytes %", 8, StatsFormat::PercentSuffix),
        StatsColumnDef::new("bytes_total", "bytes_total", "Bytes Total", 12, StatsFormat::Bytes),
        StatsColumnDef::new("translog_ops", "translog_ops", "Translog Ops", 12, StatsFormat::Number),
        StatsColumnDef::new("translog_ops_recovered", "translog_ops_recovered", "TLog Recov", 12, StatsFormat::Number),
        StatsColumnDef::new("translog_ops_percent", "translog_ops_percent", "TLog %", 8, StatsFormat::PercentSuffix),
    ];
    assert(stats_views(v@) =~= spec_esrecovery_all_columns());
    v
}

/// The fields of the DB Recovery columns shown by default, in order.
pub open spec fn spec_esrecovery_default_fields() -> Seq<Seq<char>> {
    seq!["index"@, "shard"@, "time"@, "type"@, "stage"@, "source_node"@, "target_node"@, "files_percent"@, "bytes_percent"@, "translog_ops_percent"@]
}

pub fn esrecovery_default_fields() -> (v: Vec<&'static str>)
    ensures
        str_views(v@) == spec_esrecovery_default_fields(),
{
    let v = vec!["index", "shard", "time", "type", "stage", "source_node", "target_node", "files_percent", "bytes_percent", "translog_ops_percent"];
    assert(str_views(v@) =~= spec_esrecovery_default_fields());
    v
}

/// Every column that the Files tab table can show; the default ones come first.
pub open spec fn spec_files_all_columns() -> Seq<StatsColumnDefView> {
    seq![
        scv("num"@, "num"@, "File #"@, 8, StatsFormat::Number),
        scv("node"@, "node"@, "Node"@, 14, StatsFormat::Text),
        scv("name"@, "name"@, "Name"@, 50, StatsFormat::Text),
        scv("locked"@, "locked"@, "Locked"@, 8, StatsFormat::Boolean),
        scv("first"@, "first"@, "First Date"@, 20, StatsFormat::EpochSecs),
        scv("filesize"@, "filesize"@, "File Size"@, 12, StatsFormat::Number),
        scv("lastTimestamp"@, "lastTimestamp"@, "Last Date"@, 20, StatsFormat::EpochMs),
        scv("encoding"@, "encoding"@, "Encoding"@, 14, StatsFormat::Text),
        scv("packetPosEncoding"@, "packetPosEncoding"@, "Pkt Pos Enc"@, 14, StatsFormat::Text),
        scv("packets"@, "packets"@, "Packets"@, 12, StatsFormat::Number),
        scv("packetsSize"@, "packetsSize"@, "Packets Size"@, 14, StatsFormat::Number),
        scv("uncompressedBits"@, "uncompressedBits"@, "UC Bits"@, 10, StatsFormat::Number),
        scv("cratio"@, "cratio"@, "C Ratio"@, 10, StatsFormat::PercentSuffix),
        scv("compression"@, "compression"@, "Compression"@, 14, StatsFormat::Text),
        scv("startTimestamp"@, "startTimestamp"@, "Start Date"@, 20, StatsFormat::EpochMs),
        scv("finishTimestamp"@, "finishTimestamp"@, "Finish Date"@, 20, StatsFormat::EpochMs),
        scv("sessionsStarted"@, "sessionsStarted"@, "Sess Started"@, 14, StatsFormat::Number),
        scv("sessionsPresent"@, "sessionsPresent"@, "Sess Present"@, 14, StatsFormat::Number),
    ]
}

pub fn files_all_columns() -> (v: Vec<StatsColumnDef>)
    ensures
        stats_views(v@) == spec_files_all_columns(),
{
    let v = vec![
        StatsColumnDef::new("num", "num", "File #", 8, StatsFormat::Number),
        StatsColumnDef::new("node", "node", "Node", 14, StatsFormat::Text),
        StatsColumnDef::new("name", "name", "Name", 50, StatsFormat::Text),
        StatsColumnDef::new("locked", "locked", "Locked", 8, StatsFormat::Boolean),
        StatsColumnDef::new("first", "first", "First Date", 20, StatsFormat::EpochSecs),
        StatsColumnDef::new("filesize", "filesize", "File Size", 12, StatsFormat::Number),
        StatsColumnDef::new("lastTimestamp", "lastTimestamp", "Last Date", 20, StatsFormat::EpochMs),
        StatsColumnDef::new("encoding", "encoding", "Encoding", 14, StatsFormat::Text),
        StatsColumnDef::new("packetPosEncoding", "packetPosEncoding", "Pkt Pos Enc", 14, StatsFormat::Text),
        StatsColumnDef::new("packets", "packets", "Packets", 12, StatsFormat::Number),
        StatsColumnDef::new("packetsSize", "packetsSize", "Packets Size", 14, StatsFormat::Number),
        StatsColumnDef::new("uncompressedBits", "uncompressedBits", "UC Bits", 10, StatsFormat::Number),
        StatsColumnDef::new("cratio", "cratio", "C Ratio", 10, StatsFormat::PercentSuffix),
        StatsColumnDef::new("compression", "compression", "Compression", 14, StatsFormat::Text),
        StatsColumnDef::new("startTimestamp", "startTimestamp", "Start Date", 20, StatsFormat::EpochMs),
        StatsColumnDef::new("finishTimestamp", "finishTimestamp", "Finish Date", 20, StatsFormat::EpochMs),
        StatsColumnDef::new("sessionsStarted", "sessionsStarted", "Sess Started", 14, StatsFormat::Number),
        StatsColumnDef::new("sessionsPresent", "sessionsPresent", "Sess Present", 14, StatsFormat::Number),
    ];
    assert(stats_views(v@) =~= spec_files_all_columns());
    v
}

/// The fields of the Files tab columns shown by default, in order.
pub open spec fn spec_files_default_fields() -> Seq<Seq<char>> {
    seq!["num"@, "node"@, "name"@, "locked"@, "first"@, "filesize"@]
}

pub fn files_default_fields() -> (v: Vec<&'static str>)
    ensures
        str_views(v@) == spec_files_default_fields(),
{
    let v = vec!["num", "node", "name", "locked", "first", "filesize"];
    assert(str_views(v@) =~= spec_files_default_fields());
    v
}
/// The first column of `all` whose field is `name`.
pub open spec fn spec_find_field(all: Seq<StatsColumnDefView>, name: Seq<char>) -> Option<StatsColumnDefView>
    decreases all.len(),
{
    if all.len() == 0 {
        None
    } else if all[0].field == name {
        Some(all[0])
    } else {
        spec_find_field(all.drop_first(), name)
    }
}

/// The columns that the field names select, in the order of the names; a name that
/// no column has is skipped, and a name selects the first column with that field.
pub open spec fn spec_columns_from_fields(names: Seq<Seq<char>>, all: Seq<StatsColumnDefView>) -> Seq<StatsColumnDefView>
    decreases names.len(),
{
    if names.len() == 0 {
        seq![]
    } else {
        let prev = spec_columns_from_fields(names.drop_last(), all);
        match spec_find_field(all, names.last()) {
            Some(c) => prev.push(c),
            None => prev,
        }
    }
}

proof fn lemma_find_field_skip(all: Seq<StatsColumnDefView>, name: Seq<char>, i: int)
    requires
        0 <= i <= all.len(),
        forall|k: int| 0 <= k < i ==> all[k].field != name,
    ensures
        spec_find_field(all, name) == spec_find_field(all.subrange(i, all.len() as int), name),
    decreases i,
{
    if i > 0 {
        assert(all.drop_first().subrange(i - 1, all.drop_first().len() as int) =~= all.subrange(i, all.len() as int));
        lemma_find_field_skip(all.drop_first(), name, i - 1);
    } else {
        assert(all.subrange(0, all.len() as int) =~= all);
    }
}

/// Index of the first column of `all` whose field is `name`.
pub fn find_stats_column(all: &[StatsColumnDef], name: &str) -> (r: Option<usize>)
    ensures
        match r {
            Some(i) => i < all@.len() && spec_find_field(stats_views(all@), name@) == Some(all@[i as int]@),
            None => spec_find_field(stats_views(all@), name@) is None,
        },
{
    let ghost views = stats_views(all@);
    let target = str_to_string(name);
    let mut i: usize = 0;
    while i < all.len()
        invariant
            i <= all@.len(),
            views == stats_views(all@),
            target@ == name@,
            forall|k: int| 0 <= k < i ==> views[k].field != name@,
        decreases all.len() - i,
    {
        if crate::text::string_eq(&all[i].field, &target) {
            proof {
                lemma_find_field_skip(views, name@, i as int);
                assert(views.subrange(i as int, views.len() as int)[0] == views[i as int]);
            }
            return Some(i);
        }
        i = i + 1;
    }
    proof {
        lemma_find_field_skip(views, name@, i as int);
        assert(views.subrange(i as int, views.len() as int).len() == 0);
    }
    None
}

/// Builds the active columns from a list of field names and the definitions of all columns.
pub fn stats_columns_from_fields(field_names: &[&str], all_columns: &[StatsColumnDef]) -> (result: Vec<StatsColumnDef>)
    ensures
        stats_views(result@) == spec_columns_from_fields(str_views(field_names@), stats_views(all_columns@)),
{
    let mut result: Vec<StatsColumnDef> = Vec::new();
    let mut i: usize = 0;
    while i < field_names.len()
        invariant
            i <= field_names@.len(),
            stats_views(result@) == spec_columns_from_fields(str_views(field_names@.subrange(0, i as int)), stats_views(all_columns@)),
        decreases field_names.len() - i,
    {
        let ghost before = result@;
        match find_stats_column(all_columns, field_names[i]) {
            Some(k) => {
                result.push(all_columns[k].duplicate());
            },
            None => {},
        }
        proof {
            let names = str_views(field_names@.subrange(0, i + 1));
            assert(names.drop_last() =~= str_views(field_names@.subrange(0, i as int)));
            assert(names.last() == field_names@[i as int]@);
            assert(stats_views(result@) =~= spec_columns_from_fields(names, stats_views(all_columns@)));
        }
        i = i + 1;
    }
    assert(field_names@.subrange(0, field_names@.len() as int) =~= field_names@);
    result
}

pub open spec fn spec_stats_tab_all_columns(tab: StatsTab) -> Seq<StatsColumnDefView> {
    match tab {
        StatsTab::Capture => spec_capture_all_columns(),
        StatsTab::DBStats => spec_esnodes_all_columns(),
        StatsTab::DBIndices => spec_esindices_all_columns(),
        StatsTab::DBTasks => spec_estasks_all_columns(),
        StatsTab::DBRecovery => spec_esrecovery_all_columns(),
        StatsTab::CaptureGraphs | StatsTab::DBShards => seq![],
    }
}

pub open spec fn spec_stats_tab_default_fields(tab: StatsTab) -> Seq<Seq<char>> {
    match tab {
        StatsTab::Capture => spec_capture_default_fields(),
        StatsTab::DBStats => spec_esnodes_default_fields(),
        StatsTab::DBIndices => spec_esindices_default_fields(),
        StatsTab::DBTasks => spec_estasks_default_fields(),
        StatsTab::DBRecovery => spec_esrecovery_default_fields(),
        StatsTab::CaptureGraphs | StatsTab::DBShards => seq![],
    }
}

pub open spec fn spec_stats_tab_shareable_type(tab: StatsTab) -> Seq<char> {
    match tab {
        StatsTab::Capture => "capture-columns"@,
        StatsTab::DBStats => "esnodes-columns"@,
        StatsTab::DBIndices => "esindices-columns"@,
        StatsTab::DBTasks => "estasks-columns"@,
        StatsTab::DBRecovery => "esrecovery-columns"@,
        StatsTab::CaptureGraphs => "capturegraphs-columns"@,
        StatsTab::DBShards => "esshards-columns"@,
    }
}

/// All columns of a Stats sub-tab; the graphs and the shards grid have none.
pub fn stats_tab_all_columns(tab: StatsTab) -> (v: Vec<StatsColumnDef>)
    ensures
        stats_views(v@) == spec_stats_tab_all_columns(tab),
{
    match tab {
        StatsTab::Capture => capture_all_columns(),
        StatsTab::DBStats => esnodes_all_columns(),
        StatsTab::DBIndices => esindices_all_columns(),
        StatsTab::DBTasks => estasks_all_columns(),
        StatsTab::DBRecovery => esrecovery_all_columns(),
        StatsTab::CaptureGraphs | StatsTab::DBShards => {
            let v: Vec<StatsColumnDef> = Vec::new();
            assert(stats_views(v@) =~= seq![]);
            v
        },
    }
}

/// The default columns of a Stats sub-tab; the graphs and the shards grid have none.
pub fn stats_tab_default_fields(tab: StatsTab) -> (v: Vec<&'static str>)
    ensures
        str_views(v@) == spec_stats_tab_default_fields(tab),
{
    match tab {
        StatsTab::Capture => capture_default_fields(),
        StatsTab::DBStats => esnodes_default_fields(),
        StatsTab::DBIndices => esindices_default_fields(),
        StatsTab::DBTasks => estasks_default_fields(),
        StatsTab::DBRecovery => esrecovery_default_fields(),
        StatsTab::CaptureGraphs | StatsTab::DBShards => {
            let v: Vec<&'static str> = Vec::new();
            assert(str_views(v@) =~= seq![]);
            v
        },
    }
}

/// The type under which the layouts of a Stats sub-tab are saved on the server.
pub fn stats_tab_shareable_type(tab: StatsTab) -> (s: &'static str)
    ensures
        s@ == spec_stats_tab_shareable_type(tab),
{
    match tab {
        StatsTab::Capture => "capture-columns",
        StatsTab::DBStats => "esnodes-columns",
        StatsTab::DBIndices => "esindices-columns",
        StatsTab::DBTasks => "estasks-columns",
        StatsTab::DBRecovery => "esrecovery-columns",
        StatsTab::CaptureGraphs => "capturegraphs-columns",
        StatsTab::DBShards => "esshards-columns",
    }
}

/// The fields of columns, in order.
pub open spec fn field_list(cols: Seq<StatsColumnDefView>) -> Seq<Seq<char>> {
    cols.map_values(|c: StatsColumnDefView| c.field)
}

proof fn lemma_find_field_found(all: Seq<StatsColumnDefView>, name: Seq<char>, i: int)
    requires
        0 <= i < all.len(),
        all[i].field == name,
    ensures
        spec_find_field(all, name) is Some,
        spec_find_field(all, name)->0.field == name,
    decreases i,
{
    if i > 0 && all[0].field != name {
        assert(all.drop_first()[i - 1] == all[i]);
        lemma_find_field_found(all.drop_first(), name, i - 1);
    }
}

/// Some column of `all` has the field `f`.
pub open spec fn field_found(all: Seq<StatsColumnDefView>, f: Seq<char>) -> bool {
    exists|i: int| 0 <= i < all.len() && (#[trigger] all[i]).field == f
}

proof fn lemma_from_fields_found(names: Seq<Seq<char>>, all: Seq<StatsColumnDefView>)
    requires
        forall|k: int| 0 <= k < names.len() ==> field_found(all, #[trigger] names[k]),
    ensures
        field_list(spec_columns_from_fields(names, all)) == names,
    decreases names.len(),
{
    if names.len() > 0 {
        let prev = names.drop_last();
        assert forall|k: int| 0 <= k < prev.len() implies field_found(all, #[trigger] prev[k]) by {
            assert(prev[k] == names[k]);
        }
        lemma_from_fields_found(prev, all);
        let k = names.len() - 1;
        assert(field_found(all, names[k]));
        let i = choose|i: int| 0 <= i < all.len() && (#[trigger] all[i]).field == names[k];
        lemma_find_field_found(all, names.last(), i);
        let r = spec_columns_from_fields(prev, all);
        let c = spec_find_field(all, names.last())->0;
        assert(field_list(r.push(c)) =~= field_list(r).push(c.field));
        assert(names =~= prev.push(names.last()));
    }
}

proof fn lemma_capture_defaults()
    ensures
        spec_capture_default_fields().no_duplicates(),
        field_list(spec_columns_from_fields(spec_capture_default_fields(), spec_capture_all_columns())) == spec_capture_default_fields(),
{
    reveal_strlit("nodeName");
    reveal_strlit("currentTime");
    reveal_strlit("monitoring");
    reveal_strlit("freeSpaceM");
    reveal_strlit("cpu");
    reveal_strlit("memory");
    reveal_strlit("packetQueue");
    reveal_strlit("diskQueue");
    reveal_strlit("esQueue");
    reveal_strlit("deltaPackets");
    reveal_strlit("deltaBytesPerSec");
    reveal_strlit("deltaSessions");
    reveal_strlit("deltaDropped");
    let d = spec_capture_default_fields();
    let all = spec_capture_all_columns();
    assert(d.len() == 13);
    assert(d[0] == "nodeName"@);
    assert(d[1] == "currentTime"@);
    assert(d[2] == "monitoring"@);
    assert(d[3] == "freeSpaceM"@);
    assert(d[4] == "cpu"@);
    assert(d[5] == "memory"@);
    assert(d[6] == "packetQueue"@);
    assert(d[7] == "diskQueue"@);
    assert(d[8] == "esQueue"@);
    assert(d[9] == "deltaPackets"@);
    assert(d[10] == "deltaBytesPerSec"@);
    assert(d[11] == "deltaSessions"@);
    assert(d[12] == "deltaDropped"@);
    assert forall|k: int| 0 <= k < d.len() implies field_found(all, #[trigger] d[k]) by {
        if k == 0 { assert(all[0].field == d[0]); } else if k == 1 { assert(all[1].field == d[1]); } else if k == 2 { assert(all[2].field == d[2]); } else if k == 3 { assert(all[3].field == d[3]); } else if k == 4 { assert(all[4].field == d[4]); } else if k == 5 { assert(all[5].field == d[5]); } else if k == 6 { assert(all[6].field == d[6]); } else if k == 7 { assert(all[7].field == d[7]); } else if k == 8 { assert(all[8].field == d[8]); } else if k == 9 { assert(all[9].field == d[9]); } else if k == 10 { assert(all[10].field == d[10]); } else if k == 11 { assert(all[11].field == d[11]); } else if k == 12 { assert(all[12].field == d[12]); }
    }
    assert forall|i: int, j: int| 0 <= i < d.len() && 0 <= j < d.len() && i != j implies d[i] != d[j] by {
        if i == 0 { if j == 1 { assert(d[0].len() != d[1].len()); } else if j == 2 { assert(d[0].len() != d[2].len()); } else if j == 3 { assert(d[0].len() != d[3].len()); } else if j == 4 { assert(d[0].len() != d[4].len()); } else if j == 5 { assert(d[0].len() != d[5].len()); } else if j == 6 { assert(d[0].len() != d[6].len()); } else if j == 7 { assert(d[0].len() != d[7].len()); } else if j == 8 { assert(d[0].len() != d[8].len()); } else if j == 9 { assert(d[0].len() != d[9].len()); } else if j == 10 { assert(d[0].len() != d[10].len()); } else if j == 11 { assert(d[0].len() != d[11].len()); } else if j == 12 { assert(d[0].len() != d[12].len()); } }
        else if i == 1 { if j == 0 { assert(d[1].len() != d[0].len()); } else if j == 2 { assert(d[1].len() != d[2].len()); } else if j == 3 { assert(d[1].len() != d[3].len()); } else if j == 4 { assert(d[1].len() != d[4].len()); } else if j == 5 { assert(d[1].len() != d[5].len()); } else if j == 6 { assert(d[1][0] != d[6][0]); } else if j == 7 { assert(d[1].len() != d[7].len()); } else if j == 8 { assert(d[1].len() != d[8].len()); } else if j == 9 { assert(d[1].len() != d[9].len()); } else if j == 10 { assert(d[1].len() != d[10].len()); } else if j == 11 { assert(d[1].len() != d[11].len()); } else if j == 12 { assert(d[1].len() != d[12].len()); } }
        else if i == 2 { if j == 0 { assert(d[2].len() != d[0].len()); } else if j == 1 { assert(d[2].len() != d[1].len()); } else if j == 3 { assert(d[2][0] != d[3][0]); } else if j == 4 { assert(d[2].len() != d[4].len()); } else if j == 5 { assert(d[2].len() != d[5].len()); } else if j == 6 { assert(d[2].len() != d[6].len()); } else if j == 7 { assert(d[2].len() != d[7].len()); } else if j == 8 { assert(d[2].len() != d[8].len()); } else if j == 9 { assert(d[2].len() != d[9].len()); } else if j == 10 { assert(d[2].len() != d[10].len()); } else if j == 11 { assert(d[2].len() != d[11].len()); } else if j == 12 { assert(d[2].len() != d[12].len()); } }
        else if i == 3 { if j == 0 { assert(d[3].len() != d[0].len()); } else if j == 1 { assert(d[3].len() != d[1].len()); } else if j == 2 { assert(d[3][0] != d[2][0]); } else if j == 4 { assert(d[3].len() != d[4].len()); } else if j == 5 { assert(d[3].len() != d[5].len()); } else if j == 6 { assert(d[3].len() != d[6].len()); } else if j == 7 { assert(d[3].len() != d[7].len()); } else if j == 8 { assert(d[3].len() != d[8].len()); } else if j == 9 { assert(d[3].len() != d[9].len()); } else if j == 10 { assert(d[3].len() != d[10].len()); } else if j == 11 { assert(d[3].len() != d[11].len()); } else if j == 12 { assert(d[3].len() != d[12].len()); } }
        else if i == 4 { if j == 0 { assert(d[4].len() != d[0].len()); } else if j == 1 { assert(d[4].len() != d[1].len()); } else if j == 2 { assert(d[4].len() != d[2].len()); } else if j == 3 { assert(d[4].len() != d[3].len()); } else if j == 5 { assert(d[4].len() != d[5].len()); } else if j == 6 { assert(d[4].len() != d[6].len()); } else if j == 7 { assert(d[4].len() != d[7].len()); } else if j == 8 { assert(d[4].len() != d[8].len()); } else if j == 9 { assert(d[4].len() != d[9].len()); } else if j == 10 { assert(d[4].len() != d[10].len()); } else if j == 11 { assert(d[4].len() != d[11].len()); } else if j == 12 { assert(d[4].len() != d[12].len()); } }
        else if i == 5 { if j == 0 { assert(d[5].len() != d[0].len()); } else if j == 1 { assert(d[5].len() != d[1].len()); } else if j == 2 { assert(d[5].len() != d[2].len()); } else if j == 3 { assert(d[5].len() != d[3].len()); } else if j == 4 { assert(d[5].len() != d[4].len()); } else if j == 6 { assert(d[5].len() != d[6].len()); } else if j == 7 { assert(d[5].len() != d[7].len()); } else if j == 8 { assert(d[5].len() != d[8].len()); } else if j == 9 { assert(d[5].len() != d[9].len()); } else if j == 10 { assert(d[5].len() != d[10].len()); } else if j == 11 { assert(d[5].len() != d[11].len()); } else if j == 12 { assert(d[5].len() != d[12].len()); } }
        else if i == 6 { if j == 0 { assert(d[6].len() != d[0].len()); } else if j == 1 { assert(d[6][0] != d[1][0]); } else if j == 2 { assert(d[6].len() != d[2].len()); } else if j == 3 { assert(d[6].len() != d[3].len()); } else if j == 4 { assert(d[6].len() != d[4].len()); } else if j == 5 { assert(d[6].len() != d[5].len()); } else if j == 7 { assert(d[6].len() != d[7].len()); } else if j == 8 { assert(d[6].len() != d[8].len()); } else if j == 9 { assert(d[6].len() != d[9].len()); } else if j == 10 { assert(d[6].len() != d[10].len()); } else if j == 11 { assert(d[6].len() != d[11].len()); } else if j == 12 { assert(d[6].len() != d[12].len()); } }
        else if i == 7 { if j == 0 { assert(d[7].len() != d[0].len()); } else if j == 1 { assert(d[7].len() != d[1].len()); } else if j == 2 { assert(d[7].len() != d[2].len()); } else if j == 3 { assert(d[7].len() != d[3].len()); } else if j == 4 { assert(d[7].len() != d[4].len()); } else if j == 5 { assert(d[7].len() != d[5].len()); } else if j == 6 { assert(d[7].len() != d[6].len()); } else if j == 8 { assert(d[7].len() != d[8].len()); } else if j == 9 { assert(d[7].len() != d[9].len()); } else if j == 10 { assert(d[7].len() != d[10].len()); } else if j == 11 { assert(d[7].len() != d[11].len()); } else if j == 12 { assert(d[7].len() != d[12].len()); } }
        else if i == 8 { if j == 0 { assert(d[8].len() != d[0].len()); } else if j == 1 { assert(d[8].len() != d[1].len()); } else if j == 2 { assert(d[8].len() != d[2].len()); } else if j == 3 { assert(d[8].len() != d[3].len()); } else if j == 4 { assert(d[8].len() != d[4].len()); } else if j == 5 { assert(d[8].len() != d[5].len()); } else if j == 6 { assert(d[8].len() != d[6].len()); } else if j == 7 { assert(d[8].len() != d[7].len()); } else if j == 9 { assert(d[8].len() != d[9].len()); } else if j == 10 { assert(d[8].len() != d[10].len()); } else if j == 11 { assert(d[8].len() != d[11].len()); } else if j == 12 { assert(d[8].len() != d[12].len()); } }
        else if i == 9 { if j == 0 { assert(d[9].len() != d[0].len()); } else if j == 1 { assert(d[9].len() != d[1].len()); } else if j == 2 { assert(d[9].len() != d[2].len()); } else if j == 3 { assert(d[9].len() != d[3].len()); } else if j == 4 { assert(d[9].len() != d[4].len()); } else if j == 5 { assert(d[9].len() != d[5].len()); } else if j == 6 { assert(d[9].len() != d[6].len()); } else if j == 7 { assert(d[9].len() != d[7].len()); } else if j == 8 { assert(d[9].len() != d[8].len()); } else if j == 10 { assert(d[9].len() != d[10].len()); } else if j == 11 { assert(d[9].len() != d[11].len()); } else if j == 12 { assert(d[9][5] != d[12][5]); } }
        else if i == 10 { if j == 0 { assert(d[10].len() != d[0].len()); } else if j == 1 { assert(d[10].len() != d[1].len()); } else if j == 2 { assert(d[10].len() != d[2].len()); } else if j == 3 { assert(d[10].len() != d[3].len()); } else if j == 4 { assert(d[10].len() != d[4].len()); } else if j == 5 { assert(d[10].len() != d[5].len()); } else if j == 6 { assert(d[10].len() != d[6].len()); } else if j == 7 { assert(d[10].len() != d[7].len()); } else if j == 8 { assert(d[10].len() != d[8].len()); } else if j == 9 { assert(d[10].len() != d[9].len()); } else if j == 11 { assert(d[10].len() != d[11].len()); } else if j == 12 { assert(d[10].len() != d[12].len()); } }
        else if i == 11 { if j == 0 { assert(d[11].len() != d[0].len()); } else if j == 1 { assert(d[11].len() != d[1].len()); } else if j == 2 { assert(d[11].len() != d[2].len()); } else if j == 3 { assert(d[11].len() != d[3].len()); } else if j == 4 { assert(d[11].len() != d[4].len()); } else if j == 5 { assert(d[11].len() != d[5].len()); } else if j == 6 { assert(d[11].len() != d[6].len()); } else if j == 7 { assert(d[11].len() != d[7].len()); } else if j == 8 { assert(d[11].len() != d[8].len()); } else if j == 9 { assert(d[11].len() != d[9].len()); } else if j == 10 { assert(d[11].len() != d[10].len()); } else if j == 12 { assert(d[11].len() != d[12].len()); } }
        else if i == 12 { if j == 0 { assert(d[12].len() != d[0].len()); } else if j == 1 { assert(d[12].len() != d[1].len()); } else if j == 2 { assert(d[12].len() != d[2].len()); } else if j == 3 { assert(d[12].len() != d[3].len()); } else if j == 4 { assert(d[12].len() != d[4].len()); } else if j == 5 { assert(d[12].len() != d[5].len()); } else if j == 6 { assert(d[12].len() != d[6].len()); } else if j == 7 { assert(d[12].len() != d[7].len()); } else if j == 8 { assert(d[12].len() != d[8].len()); } else if j == 9 { assert(d[12][5] != d[9][5]); } else if j == 10 { assert(d[12].len() != d[10].len()); } else if j == 11 { assert(d[12].len() != d[11].len()); } }
    }
    lemma_from_fields_found(d, all);
}

proof fn lemma_dbstats_defaults()
    ensures
        spec_esnodes_default_fields().no_duplicates(),
        field_list(spec_columns_from_fields(spec_esnodes_default_fields(), spec_esnodes_all_columns())) == spec_esnodes_default_fields(),
{
    reveal_strlit("name");
    reveal_strlit("docs");
    reveal_strlit("storeSize");
    reveal_strlit("freeSize");
    reveal_strlit("heapSize");
    reveal_strlit("load");
    reveal_strlit("cpu");
    reveal_strlit("read");
    reveal_strlit("write");
    reveal_strlit("searches");
    let d = spec_esnodes_default_fields();
    let all = spec_esnodes_all_columns();
    assert(d.len() == 10);
    assert(d[0] == "name"@);
    assert(d[1] == "docs"@);
    assert(d[2] == "storeSize"@);
    assert(d[3] == "freeSize"@);
    assert(d[4] == "heapSize"@);
    assert(d[5] == "load"@);
    assert(d[6] == "cpu"@);
    assert(d[7] == "read"@);
    assert(d[8] == "write"@);
    assert(d[9] == "searches"@);
    assert forall|k: int| 0 <= k < d.len() implies field_found(all, #[trigger] d[k]) by {
        if k == 0 { assert(all[0].field == d[0]); } else if k == 1 { assert(all[1].field == d[1]); } else if k == 2 { assert(all[2].field == d[2]); } else if k == 3 { assert(all[3].field == d[3]); } else if k == 4 { assert(all[4].field == d[4]); } else if k == 5 { assert(all[5].field == d[5]); } else if k == 6 { assert(all[6].field == d[6]); } else if k == 7 { assert(all[7].field == d[7]); } else if k == 8 { assert(all[8].field == d[8]); } else if k == 9 { assert(all[9].field == d[9]); }
    }
    assert forall|i: int, j: int| 0 <= i < d.len() && 0 <= j < d.len() && i != j implies d[i] != d[j] by {
        if i == 0 { if j == 1 { assert(d[0][0] != d[1][0]); } else if j == 2 { assert(d[0].len() != d[2].len()); } else if j == 3 { assert(d[0].len() != d[3].len()); } else if j == 4 { assert(d[0].len() != d[4].len()); } else if j == 5 { assert(d[0][0] != d[5][0]); } else if j == 6 { assert(d[0].len() != d[6].len()); } else if j == 7 { assert(d[0][0] != d[7][0]); } else if j == 8 { assert(d[0].len() != d[8].len()); } else if j == 9 { assert(d[0].len() != d[9].len()); } }
        else if i == 1 { if j == 0 { assert(d[1][0] != d[0][0]); } else if j == 2 { assert(d[1].len() != d[2].len()); } else if j == 3 { assert(d[1].len() != d[3].len()); } else if j == 4 { assert(d[1].len() != d[4].len()); } else if j == 5 { assert(d[1][0] != d[5][0]); } else if j == 6 { assert(d[1].len() != d[6].len()); } else if j == 7 { assert(d[1][0] != d[7][0]); } else if j == 8 { assert(d[1].len() != d[8].len()); } else if j == 9 { assert(d[1].len() != d[9].len()); } }
        else if i == 2 { if j == 0 { assert(d[2].len() != d[0].len()); } else if j == 1 { assert(d[2].len() != d[1].len()); } else if j == 3 { assert(d[2].len() != d[3].len()); } else if j == 4 { assert(d[2].len() != d[4].len()); } else if j == 5 { assert(d[2].len() != d[5].len()); } else if j == 6 { assert(d[2].len() != d[6].len()); } else if j == 7 { assert(d[2].len() != d[7].len()); } else if j == 8 { assert(d[2].len() != d[8].len()); } else if j == 9 { assert(d[2].len() != d[9].len()); } }
        else if i == 3 { if j == 0 { assert(d[3].len() != d[0].len()); } else if j == 1 { assert(d[3].len() != d[1].len()); } else if j == 2 { assert(d[3].len() != d[2].len()); } else if j == 4 { assert(d[3][0] != d[4][0]); } else if j == 5 { assert(d[3].len() != d[5].len()); } else if j == 6 { assert(d[3].len() != d[6].len()); } else if j == 7 { assert(d[3].len() != d[7].len()); } else if j == 8 { assert(d[3].len() != d[8].len()); } else if j == 9 { assert(d[3][0] != d[9][0]); } }
        else if i == 4 { if j == 0 { assert(d[4].len() != d[0].len()); } else if j == 1 { assert(d[4].len() != d[1].len()); } else if j == 2 { assert(d[4].len() != d[2].len()); } else if j == 3 { assert(d[4][0] != d[3][0]); } else if j == 5 { assert(d[4].len() != d[5].len()); } else if j == 6 { assert(d[4].len() != d[6].len()); } else if j == 7 { assert(d[4].len() != d[7].len()); } else if j == 8 { assert(d[4].len() != d[8].len()); } else if j == 9 { assert(d[4][0] != d[9][0]); } }
        else if i == 5 { if j == 0 { assert(d[5][0] != d[0][0]); } else if j == 1 { assert(d[5][0] != d[1][0]); } else if j == 2 { assert(d[5].len() != d[2].len()); } else if j == 3 { assert(d[5].len() != d[3].len()); } else if j == 4 { assert(d[5].len() != d[4].len()); } else if j == 6 { assert(d[5].len() != d[6].len()); } else if j == 7 { assert(d[5][0] != d[7][0]); } else if j == 8 { assert(d[5].len() != d[8].len()); } else if j == 9 { assert(d[5].len() != d[9].len()); } }
        else if i == 6 { if j == 0 { assert(d[6].len() != d[0].len()); } else if j == 1 { assert(d[6].len() != d[1].len()); } else if j == 2 { assert(d[6].len() != d[2].len()); } else if j == 3 { assert(d[6].len() != d[3].len()); } else if j == 4 { assert(d[6].len() != d[4].len()); } else if j == 5 { assert(d[6].len() != d[5].len()); } else if j == 7 { assert(d[6].len() != d[7].len()); } else if j == 8 { assert(d[6].len() != d[8].len()); } else if j == 9 { assert(d[6].len() != d[9].len()); } }
        else if i == 7 { if j == 0 { assert(d[7][0] != d[0][0]); } else if j == 1 { assert(d[7][0] != d[1][0]); } else if j == 2 { assert(d[7].len() != d[2].len()); } else if j == 3 { assert(d[7].len() != d[3].len()); } else if j == 4 { assert(d[7].len() != d[4].len()); } else if j == 5 { assert(d[7][0] != d[5][0]); } else if j == 6 { assert(d[7].len() != d[6].len()); } else if j == 8 { assert(d[7].len() != d[8].len()); } else if j == 9 { assert(d[7].len() != d[9].len()); } }
        else if i == 8 { if j == 0 { assert(d[8].len() != d[0].len()); } else if j == 1 { assert(d[8].len() != d[1].len()); } else if j == 2 { assert(d[8].len() != d[2].len()); } else if j == 3 { assert(d[8].len() != d[3].len()); } else if j == 4 { assert(d[8].len() != d[4].len()); } else if j == 5 { assert(d[8].len() != d[5].len()); } else if j == 6 { assert(d[8].len() != d[6].len()); } else if j == 7 { assert(d[8].len() != d[7].len()); } else if j == 9 { assert(d[8].len() != d[9].len()); } }
        else if i == 9 { if j == 0 { assert(d[9].len() != d[0].len()); } else if j == 1 { assert(d[9].len() != d[1].len()); } else if j == 2 { assert(d[9].len() != d[2].len()); } else if j == 3 { assert(d[9][0] != d[3][0]); } else if j == 4 { assert(d[9][0] != d[4][0]); } else if j == 5 { assert(d[9].len() != d[5].len()); } else if j == 6 { assert(d[9].len() != d[6].len()); } else if j == 7 { assert(d[9].len() != d[7].len()); } else if j == 8 { assert(d[9].len() != d[8].len()); } }
    }
    lemma_from_fields_found(d, all);
}

proof fn lemma_dbindices_defaults()
    ensures
        spec_esindices_default_fields().no_duplicates(),
        field_list(spec_columns_from_fields(spec_esindices_default_fields(), spec_esindices_all_columns())) == spec_esindices_default_fields(),
{
    reveal_strlit("index");
    reveal_strlit("docs.count");
    reveal_strlit("store.size");
    reveal_strlit("pri");
    reveal_strlit("segmentsCount");
    reveal_strlit("rep");
    reveal_strlit("memoryTotal");
    reveal_strlit("health");
    reveal_strlit("status");
    let d = spec_esindices_default_fields();
    let all = spec_esindices_all_columns();
    assert(d.len() == 9);
    assert(d[0] == "index"@);
    assert(d[1] == "docs.count"@);
    assert(d[2] == "store.size"@);
    assert(d[3] == "pri"@);
    assert(d[4] == "segmentsCount"@);
    assert(d[5] == "rep"@);
    assert(d[6] == "memoryTotal"@);
    assert(d[7] == "health"@);
    assert(d[8] == "status"@);
    assert forall|k: int| 0 <= k < d.len() implies field_found(all, #[trigger] d[k]) by {
        if k == 0 { assert(all[0].field == d[0]); } else if k == 1 { assert(all[1].field == d[1]); } else if k == 2 { assert(all[2].field == d[2]); } else if k == 3 { assert(all[3].field == d[3]); } else if k == 4 { assert(all[4].field == d[4]); } else if k == 5 { assert(all[5].field == d[5]); } else if k == 6 { assert(all[6].field == d[6]); } else if k == 7 { assert(all[7].field == d[7]); } else if k == 8 { assert(all[8].field == d[8]); }
    }
    assert forall|i: int, j: int| 0 <= i < d.len() && 0 <= j < d.len() && i != j implies d[i] != d[j] by {
        if i == 0 { if j == 1 { assert(d[0].len() != d[1].len()); } else if j == 2 { assert(d[0].len() != d[2].len()); } else if j == 3 { assert(d[0].len() != d[3].len()); } else if j == 4 { assert(d[0].len() != d[4].len()); } else if j == 5 { assert(d[0].len() != d[5].len()); } else if j == 6 { assert(d[0].len() != d[6].len()); } else if j == 7 { assert(d[0].len() != d[7].len()); } else if j == 8 { assert(d[0].len() != d[8].len()); } }
        else if i == 1 { if j == 0 { assert(d[1].len() != d[0].len()); } else if j == 2 { assert(d[1][0] != d[2][0]); } else if j == 3 { assert(d[1].len() != d[3].len()); } else if j == 4 { assert(d[1].len() != d[4].len()); } else if j == 5 { assert(d[1].len() != d[5].len()); } else if j == 6 { assert(d[1].len() != d[6].len()); } else if j == 7 { assert(d[1].len() != d[7].len()); } else if j == 8 { assert(d[1].len() != d[8].len()); } }
        else if i == 2 { if j == 0 { assert(d[2].len() != d[0].len()); } else if j == 1 { assert(d[2][0] != d[1][0]); } else if j == 3 { assert(d[2].len() != d[3].len()); } else if j == 4 { assert(d[2].len() != d[4].len()); } else if j == 5 { assert(d[2].len() != d[5].len()); } else if j == 6 { assert(d[2].len() != d[6].len()); } else if j == 7 { assert(d[2].len() != d[7].len()); } else if j == 8 { assert(d[2].len() != d[8].len()); } }
        else if i == 3 { if j == 0 { assert(d[3].len() != d[0].len()); } else if j == 1 { assert(d[3].len() != d[1].len()); } else if j == 2 { assert(d[3].len() != d[2].len()); } else if j == 4 { assert(d[3].len() != d[4].len()); } else if j == 5 { assert(d[3][0] != d[5][0]); } else if j == 6 { assert(d[3].len() != d[6].len()); } else if j == 7 { assert(d[3].len() != d[7].len()); } else if j == 8 { assert(d[3].len() != d[8].len()); } }
        else if i == 4 { if j == 0 { assert(d[4].len() != d[0].len()); } else if j == 1 { assert(d[4].len() != d[1].len()); } else if j == 2 { assert(d[4].len() != d[2].len()); } else if j == 3 { assert(d[4].len() != d[3].len()); } else if j == 5 { assert(d[4].len() != d[5].len()); } else if j == 6 { assert(d[4].len() != d[6].len()); } else if j == 7 { assert(d[4].len() != d[7].len()); } else if j == 8 { assert(d[4].len() != d[8].len()); } }
        else if i == 5 { if j == 0 { assert(d[5].len() != d[0].len()); } else if j == 1 { assert(d[5].len() != d[1].len()); } else if j == 2 { assert(d[5].len() != d[2].len()); } else if j == 3 { assert(d[5][0] != d[3][0]); } else if j == 4 { assert(d[5].len() != d[4].len()); } else if j == 6 { assert(d[5].len() != d[6].len()); } else if j == 7 { assert(d[5].len() != d[7].len()); } else if j == 8 { assert(d[5].len() != d[8].len()); } }
        else if i == 6 { if j == 0 { assert(d[6].len() != d[0].len()); } else if j == 1 { assert(d[6].len() != d[1].len()); } else if j == 2 { assert(d[6].len() != d[2].len()); } else if j == 3 { assert(d[6].len() != d[3].len()); } else if j == 4 { assert(d[6].len() != d[4].len()); } else if j == 5 { assert(d[6].len() != d[5].len()); } else if j == 7 { assert(d[6].len() != d[7].len()); } else if j == 8 { assert(d[6].len() != d[8].len()); } }
        else if i == 7 { if j == 0 { assert(d[7].len() != d[0].len()); } else if j == 1 { assert(d[7].len() != d[1].len()); } else if j == 2 { assert(d[7].len() != d[2].len()); } else if j == 3 { assert(d[7].len() != d[3].len()); } else if j == 4 { assert(d[7].len() != d[4].len()); } else if j == 5 { assert(d[7].len() != d[5].len()); } else if j == 6 { assert(d[7].len() != d[6].len()); } else if j == 8 { assert(d[7][0] != d[8][0]); } }
        else if i == 8 { if j == 0 { assert(d[8].len() != d[0].len()); } else if j == 1 { assert(d[8].len() != d[1].len()); } else if j == 2 { assert(d[8].len() != d[2].len()); } else if j == 3 { assert(d[8].len() != d[3].len()); } else if j == 4 { assert(d[8].len() != d[4].len()); } else if j == 5 { assert(d[8].len() != d[5].len()); } else if j == 6 { assert(d[8].len() != d[6].len()); } else if j == 7 { assert(d[8][0] != d[7][0]); } }
    }
    lemma_from_fields_found(d, all);
}

proof fn lemma_dbtasks_defaults()
    ensures
        spec_estasks_default_fields().no_duplicates(),
        field_list(spec_columns_from_fields(spec_estasks_default_fields(), spec_estasks_all_columns())) == spec_estasks_default_fields(),
{
    reveal_strlit("action");
    reveal_strlit("description");
    reveal_strlit("start_time_in_millis");
    reveal_strlit("running_time_in_nanos");
    reveal_strlit("childrenCount");
    reveal_strlit("user");
    let d = spec_estasks_default_fields();
    let all = spec_estasks_all_columns();
    assert(d.len() == 6);
    assert(d[0] == "action"@);
    assert(d[1] == "description"@);
    assert(d[2] == "start_time_in_millis"@);
    assert(d[3] == "running_time_in_nanos"@);
    assert(d[4] == "childrenCount"@);
    assert(d[5] == "user"@);
    assert forall|k: int| 0 <= k < d.len() implies field_found(all, #[trigger] d[k]) by {
        if k == 0 { assert(all[0].field == d[0]); } else if k == 1 { assert(all[1].field == d[1]); } else if k == 2 { assert(all[2].field == d[2]); } else if k == 3 { assert(all[3].field == d[3]); } else if k == 4 { assert(all[4].field == d[4]); } else if k == 5 { assert(all[5].field == d[5]); }
    }
    assert forall|i: int, j: int| 0 <= i < d.len() && 0 <= j < d.len() && i != j implies d[i] != d[j] by {
        if i == 0 { if j == 1 { assert(d[0].len() != d[1].len()); } else if j == 2 { assert(d[0].len() != d[2].len()); } else if j == 3 { assert(d[0].len() != d[3].len()); } else if j == 4 { assert(d[0].len() != d[4].len()); } else if j == 5 { assert(d[0].len() != d[5].len()); } }
        else if i == 1 { if j == 0 { assert(d[1].len() != d[0].len()); } else if j == 2 { assert(d[1].len() != d[2].len()); } else if j == 3 { assert(d[1].len() != d[3].len()); } else if j == 4 { assert(d[1].len() != d[4].len()); } else if j == 5 { assert(d[1].len() != d[5].len()); } }
        else if i == 2 { if j == 0 { assert(d[2].len() != d[0].len()); } else if j == 1 { assert(d[2].len() != d[1].len()); } else if j == 3 { assert(d[2].len() != d[3].len()); } else if j == 4 { assert(d[2].len() != d[4].len()); } else if j == 5 { assert(d[2].len() != d[5].len()); } }
        else if i == 3 { if j == 0 { assert(d[3].len() != d[0].len()); } else if j == 1 { assert(d[3].len() != d[1].len()); } else if j == 2 { assert(d[3].len() != d[2].len()); } else if j == 4 { assert(d[3].len() != d[4].len()); } else if j == 5 { assert(d[3].len() != d[5].len()); } }
        else if i == 4 { if j == 0 { assert(d[4].len() != d[0].len()); } else if j == 1 { assert(d[4].len() != d[1].len()); } else if j == 2 { assert(d[4].len() != d[2].len()); } else if j == 3 { assert(d[4].len() != d[3].len()); } else if j == 5 { assert(d[4].len() != d[5].len()); } }
        else if i == 5 { if j == 0 { assert(d[5].len() != d[0].len()); } else if j == 1 { assert(d[5].len() != d[1].len()); } else if j == 2 { assert(d[5].len() != d[2].len()); } else if j == 3 { assert(d[5].len() != d[3].len()); } else if j == 4 { assert(d[5].len() != d[4].len()); } }
    }
    lemma_from_fields_found(d, all);
}

proof fn lemma_dbrecovery_defaults()
    ensures
        spec_esrecovery_default_fields().no_duplicates(),
        field_list(spec_columns_from_fields(spec_esrecovery_default_fields(), spec_esrecovery_all_columns())) == spec_esrecovery_default_fields(),
{
    reveal_strlit("index");
    reveal_strlit("shard");
    reveal_strlit("time");
    reveal_strlit("type");
    reveal_strlit("stage");
    reveal_strlit("source_node");
    reveal_strlit("target_node");
    reveal_strlit("files_percent");
    reveal_strlit("bytes_percent");
    reveal_strlit("translog_ops_percent");
    let d = spec_esrecovery_default_fields();
    let all = spec_esrecovery_all_columns();
    assert(d.len() == 10);
    assert(d[0] == "index"@);
    assert(d[1] == "shard"@);
    assert(d[2] == "time"@);
    assert(d[3] == "type"@);
    assert(d[4] == "stage"@);
    assert(d[5] == "source_node"@);
    assert(d[6] == "target_node"@);
    assert(d[7] == "files_percent"@);
    assert(d[8] == "bytes_percent"@);
    assert(d[9] == "translog_ops_percent"@);
    assert forall|k: int| 0 <= k < d.len() implies field_found(all, #[trigger] d[k]) by {
        if k == 0 { assert(all[0].field == d[0]); } else if k == 1 { assert(all[1].field == d[1]); } else if k == 2 { assert(all[2].field == d[2]); } else if k == 3 { assert(all[3].field == d[3]); } else if k == 4 { assert(all[4].field == d[4]); } else if k == 5 { assert(all[6].field == d[5]); } else if k == 6 { assert(all[8].field == d[6]); } else if k == 7 { assert(all[11].field == d[7]); } else if k == 8 { assert(all[15].field == d[8]); } else if k == 9 { assert(all[19].field == d[9]); }
    }
    assert forall|i: int, j: int| 0 <= i < d.len() && 0 <= j < d.len() && i != j implies d[i] != d[j] by {
        if i == 0 { if j == 1 { assert(d[0][0] != d[1][0]); } else if j == 2 { assert(d[0].len() != d[2].len()); } else if j == 3 { assert(d[0].len() != d[3].len()); } else if j == 4 { assert(d[0][0] != d[4][0]); } else if j == 5 { assert(d[0].len() != d[5].len()); } else if j == 6 { assert(d[0].len() != d[6].len()); } else if j == 7 { assert(d[0].len() != d[7].len()); } else if j == 8 { assert(d[0].len() != d[8].len()); } else if j == 9 { assert(d[0].len() != d[9].len()); } }
        else if i == 1 { if j == 0 { assert(d[1][0] != d[0][0]); } else if j == 2 { assert(d[1].len() != d[2].len()); } else if j == 3 { assert(d[1].len() != d[3].len()); } else if j == 4 { assert(d[1][1] != d[4][1]); } else if j == 5 { assert(d[1].len() != d[5].len()); } else if j == 6 { assert(d[1].len() != d[6].len()); } else if j == 7 { assert(d[1].len() != d[7].len()); } else if j == 8 { assert(d[1].len() != d[8].len()); } else if j == 9 { assert(d[1].len() != d[9].len()); } }
        else if i == 2 { if j == 0 { assert(d[2].len() != d[0].len()); } else if j == 1 { assert(d[2].len() != d[1].len()); } else if j == 3 { assert(d[2][1] != d[3][1]); } else if j == 4 { assert(d[2].len() != d[4].len()); } else if j == 5 { assert(d[2].len() != d[5].len()); } else if j == 6 { assert(d[2].len() != d[6].len()); } else if j == 7 { assert(d[2].len() != d[7].len()); } else if j == 8 { assert(d[2].len() != d[8].len()); } else if j == 9 { assert(d[2].len() != d[9].len()); } }
        else if i == 3 { if j == 0 { assert(d[3].len() != d[0].len()); } else if j == 1 { assert(d[3].len() != d[1].len()); } else if j == 2 { assert(d[3][1] != d[2][1]); } else if j == 4 { assert(d[3].len() != d[4].len()); } else if j == 5 { assert(d[3].len() != d[5].len()); } else if j == 6 { assert(d[3].len() != d[6].len()); } else if j == 7 { assert(d[3].len() != d[7].len()); } else if j == 8 { assert(d[3].len() != d[8].len()); } else if j == 9 { assert(d[3].len() != d[9].len()); } }
        else if i == 4 { if j == 0 { assert(d[4][0] != d[0][0]); } else if j == 1 { assert(d[4][1] != d[1][1]); } else if j == 2 { assert(d[4].len() != d[2].len()); } else if j == 3 { assert(d[4].len() != d[3].len()); } else if j == 5 { assert(d[4].len() != d[5].len()); } else if j == 6 { assert(d[4].len() != d[6].len()); } else if j == 7 { assert(d[4].len() != d[7].len()); } else if j == 8 { assert(d[4].len() != d[8].len()); } else if j == 9 { assert(d[4].len() != d[9].len()); } }
        else if i == 5 { if j == 0 { assert(d[5].len() != d[0].len()); } else if j == 1 { assert(d[5].len() != d[1].len()); } else if j == 2 { assert(d[5].len() != d[2].len()); } else if j == 3 { assert(d[5].len() != d[3].len()); } else if j == 4 { assert(d[5].len() != d[4].len()); } else if j == 6 { assert(d[5][0] != d[6][0]); } else if j == 7 { assert(d[5].len() != d[7].len()); } else if j == 8 { assert(d[5].len() != d[8].len()); } else if j == 9 { assert(d[5].len() != d[9].len()); } }
        else if i == 6 { if j == 0 { assert(d[6].len() != d[0].len()); } else if j == 1 { assert(d[6].len() != d[1].len()); } else if j == 2 { assert(d[6].len() != d[2].len()); } else if j == 3 { assert(d[6].len() != d[3].len()); } else if j == 4 { assert(d[6].len() != d[4].len()); } else if j == 5 { assert(d[6][0] != d[5][0]); } else if j == 7 { assert(d[6].len() != d[7].len()); } else if j == 8 { assert(d[6].len() != d[8].len()); } else if j == 9 { assert(d[6].len() != d[9].len()); } }
        else if i == 7 { if j == 0 { assert(d[7].len() != d[0].len()); } else if j == 1 { assert(d[7].len() != d[1].len()); } else if j == 2 { assert(d[7].len() != d[2].len()); } else if j == 3 { assert(d[7].len() != d[3].len()); } else if j == 4 { assert(d[7].len() != d[4].len()); } else if j == 5 { assert(d[7].len() != d[5].len()); } else if j == 6 { assert(d[7].len() != d[6].len()); } else if j == 8 { assert(d[7][0] != d[8][0]); } else if j == 9 { assert(d[7].len() != d[9].len()); } }
        else if i == 8 { if j == 0 { assert(d[8].len() != d[0].len()); } else if j == 1 { assert(d[8].len() != d[1].len()); } else if j == 2 { assert(d[8].len() != d[2].len()); } else if j == 3 { assert(d[8].len() != d[3].len()); } else if j == 4 { assert(d[8].len() != d[4].len()); } else if j == 5 { assert(d[8].len() != d[5].len()); } else if j == 6 { assert(d[8].len() != d[6].len()); } else if j == 7 { assert(d[8][0] != d[7][0]); } else if j == 9 { assert(d[8].len() != d[9].len()); } }
        else if i == 9 { if j == 0 { assert(d[9].len() != d[0].len()); } else if j == 1 { assert(d[9].len() != d[1].len()); } else if j == 2 { assert(d[9].len() != d[2].len()); } else if j == 3 { assert(d[9].len() != d[3].len()); } else if j == 4 { assert(d[9].len() != d[4].len()); } else if j == 5 { assert(d[9].len() != d[5].len()); } else if j == 6 { assert(d[9].len() != d[6].len()); } else if j == 7 { assert(d[9].len() != d[7].len()); } else if j == 8 { assert(d[9].len() != d[8].len()); } }
    }
    lemma_from_fields_found(d, all);
}

/// The default columns of each Stats sub-tab name columns of that sub-tab, each once,
/// and select exactly those columns in their order; only the graphs and the shards
/// grid have none.
pub proof fn lemma_stats_tab_defaults(tab: StatsTab)
    ensures
        ({
            let d = spec_stats_tab_default_fields(tab);
            &&& d.no_duplicates()
            &&& field_list(spec_columns_from_fields(d, spec_stats_tab_all_columns(tab))) == d
            &&& (d.len() == 0 <==> (tab == StatsTab::CaptureGraphs || tab == StatsTab::DBShards))
        }),
{
    match tab {
        StatsTab::Capture => lemma_capture_defaults(),
        StatsTab::DBStats => lemma_dbstats_defaults(),
        StatsTab::DBIndices => lemma_dbindices_defaults(),
        StatsTab::DBTasks => lemma_dbtasks_defaults(),
        StatsTab::DBRecovery => lemma_dbrecovery_defaults(),
        _ => {
            assert(field_list(spec_columns_from_fields(seq![], spec_stats_tab_all_columns(tab))) =~= seq![]);
        },
    }
}

} // verus!
