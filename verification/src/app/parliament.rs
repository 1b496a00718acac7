//! The enums of the Parliament screens.
use vstd::prelude::*;

verus! {

/// The sort key of the Parliament issues table.
#[derive(Clone, Copy, PartialEq, Eq, Structural, Debug)]
pub enum PlIssueSort {
    Cluster,
    Title,
    Severity,
    FirstNoticed,
    LastNoticed,
}

impl PlIssueSort {
    pub open spec fn spec_label(self) -> Seq<char> {
        match self {
            PlIssueSort::Cluster => "Cluster"@,
            PlIssueSort::Title => "Title"@,
            PlIssueSort::Severity => "Severity"@,
            PlIssueSort::FirstNoticed => "First Noticed"@,
            PlIssueSort::LastNoticed => "Last Noticed"@,
        }
    }

    pub open spec fn spec_next(self) -> PlIssueSort {
        match self {
            PlIssueSort::Cluster => PlIssueSort::Title,
            PlIssueSort::Title => PlIssueSort::Severity,
            PlIssueSort::Severity => PlIssueSort::FirstNoticed,
            PlIssueSort::FirstNoticed => PlIssueSort::LastNoticed,
            PlIssueSort::LastNoticed => PlIssueSort::Cluster,
        }
    }

    /// The sort keys in cycling order.
    pub fn all() -> (v: Vec<PlIssueSort>)
        ensures
            v@ == seq![PlIssueSort::Cluster, PlIssueSort::Title, PlIssueSort::Severity,
                PlIssueSort::FirstNoticed, PlIssueSort::LastNoticed],
    {
        vec![PlIssueSort::Cluster, PlIssueSort::Title, PlIssueSort::Severity,
            PlIssueSort::FirstNoticed, PlIssueSort::LastNoticed]
    }

    pub fn label(&self) -> (s: &'static str)
        ensures
            s@ == self.spec_label(),
    {
        match self {
            PlIssueSort::Cluster => "Cluster",
            PlIssueSort::Title => "Title",
            PlIssueSort::Severity => "Severity",
            PlIssueSort::FirstNoticed => "First Noticed",
            PlIssueSort::LastNoticed => "Last Noticed",
        }
    }

    pub fn next(&self) -> (r: PlIssueSort)
        ensures
            r == self.spec_next(),
    {
        match self {
            PlIssueSort::Cluster => PlIssueSort::Title,
            PlIssueSort::Title => PlIssueSort::Severity,
            PlIssueSort::Severity => PlIssueSort::FirstNoticed,
            PlIssueSort::FirstNoticed => PlIssueSort::LastNoticed,
            PlIssueSort::LastNoticed => PlIssueSort::Cluster,
        }
    }
}

/// Cycling the issue sort key comes back to where it started after five steps.
pub proof fn lemma_issue_sort_cycle(s: PlIssueSort)
    ensures
        s.spec_next().spec_next().spec_next().spec_next().spec_next() == s,
{
}

/// The sub-tabs of the Parliament settings.
#[derive(Clone, Copy, PartialEq, Eq, Structural, Debug)]
pub enum PlSettingsTab {
    Groups,
    General,
    Notifiers,
}

impl PlSettingsTab {
    pub open spec fn spec_label(self) -> Seq<char> {
        match self {
            PlSettingsTab::Groups => "Groups"@,
            PlSettingsTab::General => "General"@,
            PlSettingsTab::Notifiers => "Notifiers"@,
        }
    }

    /// The sub-tabs in order.
    pub fn all() -> (v: Vec<PlSettingsTab>)
        ensures
            v@ == seq![PlSettingsTab::Groups, PlSettingsTab::General, PlSettingsTab::Notifiers],
    {
        vec![PlSettingsTab::Groups, PlSettingsTab::General, PlSettingsTab::Notifiers]
    }

    pub fn label(&self) -> (s: &'static str)
        ensures
            s@ == self.spec_label(),
    {
        match self {
            PlSettingsTab::Groups => "Groups",
            PlSettingsTab::General => "General",
            PlSettingsTab::Notifiers => "Notifiers",
        }
    }
}

/// The level of the groups settings tree.
#[derive(Clone, Copy, PartialEq, Eq, Structural, Debug)]
pub enum PlSettingsLevel {
    GroupList,
    GroupEditor,
    ClusterEditor,
}

/// The selected field of the group editor.
#[derive(Clone, Copy, PartialEq, Eq, Structural, Debug)]
pub enum PlGroupEditorField {
    Title,
    Description,
}

/// The selected field of the cluster editor.
#[derive(Clone, Copy, PartialEq, Eq, Structural, Debug)]
pub enum PlClusterEditorField {
    Title,
    Url,
    LocalUrl,
    Description,
    Type,
    HideDeltaBPS,
    HideDeltaTDPS,
    HideMonitoring,
    HideArkimeNodes,
    HideDataNodes,
    HideTotalNodes,
}

impl PlClusterEditorField {
    pub open spec fn spec_all() -> Seq<PlClusterEditorField> {
        seq![
            PlClusterEditorField::Title,
            PlClusterEditorField::Url,
            PlClusterEditorField::LocalUrl,
            PlClusterEditorField::Description,
            PlClusterEditorField::Type,
            PlClusterEditorField::HideDeltaBPS,
            PlClusterEditorField::HideDeltaTDPS,
            PlClusterEditorField::HideMonitoring,
            PlClusterEditorField::HideArkimeNodes,
            PlClusterEditorField::HideDataNodes,
            PlClusterEditorField::HideTotalNodes,
        ]
    }

    pub open spec fn spec_label(self) -> Seq<char> {
        match self {
            PlClusterEditorField::Title => "Title"@,
            PlClusterEditorField::Url => "URL"@,
            PlClusterEditorField::LocalUrl => "Local URL"@,
            PlClusterEditorField::Description => "Description"@,
            PlClusterEditorField::Type => "Type"@,
            PlClusterEditorField::HideDeltaBPS => "Hide Δ BPS"@,
            PlClusterEditorField::HideDeltaTDPS => "Hide Δ Drops/s"@,
            PlClusterEditorField::HideMonitoring => "Hide Monitoring"@,
            PlClusterEditorField::HideArkimeNodes => "Hide Arkime Nodes"@,
            PlClusterEditorField::HideDataNodes => "Hide Data Nodes"@,
            PlClusterEditorField::HideTotalNodes => "Hide Total Nodes"@,
        }
    }

    pub open spec fn spec_is_bool(self) -> bool {
        match self {
            PlClusterEditorField::HideDeltaBPS
            | PlClusterEditorField::HideDeltaTDPS
            | PlClusterEditorField::HideMonitoring
            | PlClusterEditorField::HideArkimeNodes
            | PlClusterEditorField::HideDataNodes
            | PlClusterEditorField::HideTotalNodes => true,
            _ => false,
        }
    }

    /// The fields in the order of the editor.
    pub fn all() -> (v: Vec<PlClusterEditorField>)
        ensures
            v@ == Self::spec_all(),
    {
        vec![
            PlClusterEditorField::Title,
            PlClusterEditorField::Url,
            PlClusterEditorField::LocalUrl,
            PlClusterEditorField::Description,
            PlClusterEditorField::Type,
            PlClusterEditorField::HideDeltaBPS,
            PlClusterEditorField::HideDeltaTDPS,
            PlClusterEditorField::HideMonitoring,
            PlClusterEditorField::HideArkimeNodes,
            PlClusterEditorField::HideDataNodes,
            PlClusterEditorField::HideTotalNodes,
        ]
    }

    pub fn label(&self) -> (s: &'static str)
        ensures
            s@ == self.spec_label(),
    {
        match self {
            PlClusterEditorField::Title => "Title",
            PlClusterEditorField::Url => "URL",
            PlClusterEditorField::LocalUrl => "Local URL",
            PlClusterEditorField::Description => "Description",
            PlClusterEditorField::Type => "Type",
            PlClusterEditorField::HideDeltaBPS => "Hide Δ BPS",
            PlClusterEditorField::HideDeltaTDPS => "Hide Δ Drops/s",
            PlClusterEditorField::HideMonitoring => "Hide Monitoring",
            PlClusterEditorField::HideArkimeNodes => "Hide Arkime Nodes",
            PlClusterEditorField::HideDataNodes => "Hide Data Nodes",
            PlClusterEditorField::HideTotalNodes => "Hide Total Nodes",
        }
    }

    /// Whether the field is a yes/no toggle (the six Hide fields).
    pub fn is_bool(&self) -> (b: bool)
        ensures
            b == self.spec_is_bool(),
    {
        match self {
            PlClusterEditorField::HideDeltaBPS
            | PlClusterEditorField::HideDeltaTDPS
            | PlClusterEditorField::HideMonitoring
            | PlClusterEditorField::HideArkimeNodes
            | PlClusterEditorField::HideDataNodes
            | PlClusterEditorField::HideTotalNodes => true,
            _ => false,
        }
    }
}

/// The fields of the cluster editor after the Type field are exactly its toggles.
pub proof fn lemma_cluster_editor_toggles(i: int)
    requires
        0 <= i < 11,
    ensures
        PlClusterEditorField::spec_all()[i].spec_is_bool() <==> i >= 5,
{
}

/// The fields of the general settings editor.
#[derive(Clone, Copy, PartialEq, Eq, Structural, Debug)]
pub enum PlGeneralField {
    OutOfDate,
    EsQueryTimeout,
    NoPackets,
    NoPacketsLength,
    LowDiskSpace,
    LowDiskSpaceType,
    LowDiskSpaceES,
    LowDiskSpaceESType,
    RemoveIssuesAfter,
    RemoveAcknowledgedAfter,
    WiseUrl,
    Cont3xtUrl,
}

impl PlGeneralField {
    pub open spec fn spec_all() -> Seq<PlGeneralField> {
        seq![
            PlGeneralField::OutOfDate,
            PlGeneralField::EsQueryTimeout,
            PlGeneralField::NoPackets,
            PlGeneralField::NoPacketsLength,
            PlGeneralField::LowDiskSpace,
            PlGeneralField::LowDiskSpaceType,
            PlGeneralField::LowDiskSpaceES,
            PlGeneralField::LowDiskSpaceESType,
            PlGeneralField::RemoveIssuesAfter,
            PlGeneralField::RemoveAcknowledgedAfter,
            PlGeneralField::WiseUrl,
            PlGeneralField::Cont3xtUrl,
        ]
    }

    pub open spec fn spec_label(self) -> Seq<char> {
        match self {
            PlGeneralField::OutOfDate => "Out of Date (sec)"@,
            PlGeneralField::EsQueryTimeout => "ES Query Timeout (sec)"@,
            PlGeneralField::NoPackets => "No Packets Threshold"@,
            PlGeneralField::NoPacketsLength => "No Packets Duration (sec)"@,
            PlGeneralField::LowDiskSpace => "Low Disk Space"@,
            PlGeneralField::LowDiskSpaceType => "Disk Space Unit"@,
            PlGeneralField::LowDiskSpaceES => "Low Disk Space ES"@,
            PlGeneralField::LowDiskSpaceESType => "ES Disk Space Unit"@,
            PlGeneralField::RemoveIssuesAfter => "Remove Issues After (min)"@,
            PlGeneralField::RemoveAcknowledgedAfter => "Remove Ack'd After (min)"@,
            PlGeneralField::WiseUrl => "WISE URL"@,
            PlGeneralField::Cont3xtUrl => "Cont3xt URL"@,
        }
    }

    /// The fields in the order of the editor.
    pub fn all() -> (v: Vec<PlGeneralField>)
        ensures
            v@ == Self::spec_all(),
    {
        vec![
            PlGeneralField::OutOfDate,
            PlGeneralField::EsQueryTimeout,
            PlGeneralField::NoPackets,
            PlGeneralField::NoPacketsLength,
            PlGeneralField::LowDiskSpace,
            PlGeneralField::LowDiskSpaceType,
            PlGeneralField::LowDiskSpaceES,
            PlGeneralField::LowDiskSpaceESType,
            PlGeneralField::RemoveIssuesAfter,
            PlGeneralField::RemoveAcknowledgedAfter,
            PlGeneralField::WiseUrl,
            PlGeneralField::Cont3xtUrl,
        ]
    }

    pub fn label(&self) -> (s: &'static str)
        ensures
            s@ == self.spec_label(),
    {
        match self {
            PlGeneralField::OutOfDate => "Out of Date (sec)",
            PlGeneralField::EsQueryTimeout => "ES Query Timeout (sec)",
            PlGeneralField::NoPackets => "No Packets Threshold",
            PlGeneralField::NoPacketsLength => "No Packets Duration (sec)",
            PlGeneralField::LowDiskSpace => "Low Disk Space",
            PlGeneralField::LowDiskSpaceType => "Disk Space Unit",
            PlGeneralField::LowDiskSpaceES => "Low Disk Space ES",
            PlGeneralField::LowDiskSpaceESType => "ES Disk Space Unit",
            PlGeneralField::RemoveIssuesAfter => "Remove Issues After (min)",
            PlGeneralField::RemoveAcknowledgedAfter => "Remove Ack'd After (min)",
            PlGeneralField::WiseUrl => "WISE URL",
            PlGeneralField::Cont3xtUrl => "Cont3xt URL",
        }
    }

    /// Whether the field is chosen from a list (the two disk space units).
    pub fn is_select(&self) -> (b: bool)
        ensures
            b == (*self == PlGeneralField::LowDiskSpaceType || *self == PlGeneralField::LowDiskSpaceESType),
    {
        match self {
            PlGeneralField::LowDiskSpaceType | PlGeneralField::LowDiskSpaceESType => true,
            _ => false,
        }
    }
}

} // verus!
