//! The enums of the Cont3xt screens and their cycling rules.
use vstd::prelude::*;

verus! {

/// An entry of the Cont3xt results tree: an indicator header or an integration result.
pub enum C3TreeItem {
    /// (itype, query)
    Indicator(String, String),
    /// index into the results
    Result(usize),
}

pub enum C3TreeItemView {
    Indicator(Seq<char>, Seq<char>),
    Result(usize),
}

impl View for C3TreeItem {
    type V = C3TreeItemView;

    open spec fn view(&self) -> C3TreeItemView {
        match self {
            C3TreeItem::Indicator(t, q) => C3TreeItemView::Indicator(t@, q@),
            C3TreeItem::Result(i) => C3TreeItemView::Result(*i),
        }
    }
}

impl C3TreeItem {
    /// The result index of a result entry; headers have none.
    pub fn result_idx(&self) -> (r: Option<usize>)
        ensures
            r == (match self {
                C3TreeItem::Result(idx) => Some(*idx),
                C3TreeItem::Indicator(_, _) => None::<usize>,
            }),
    {
        match self {
            C3TreeItem::Result(idx) => Some(*idx),
            C3TreeItem::Indicator(_, _) => None,
        }
    }
}

/// Which pane of the Cont3xt results has the keyboard.
#[derive(Clone, Copy, PartialEq, Eq, Structural, Debug)]
pub enum Cont3xtFocus {
    Results,
    Detail,
}

/// The sub-view of the integration popup.
#[derive(Clone, Copy, PartialEq, Eq, Structural, Debug)]
pub enum IntegrationPopupMode {
    Integrations,
    Views,
    SaveInput,
    ConfirmDelete,
}

/// The sub-tabs of the Cont3xt settings.
#[derive(Clone, Copy, PartialEq, Eq, Structural, Debug)]
pub enum C3SettingsTab {
    Views,
    Integrations,
    LinkGroups,
    Overviews,
}

impl C3SettingsTab {
    pub open spec fn spec_name(self) -> Seq<char> {
        match self {
            C3SettingsTab::Views => "(1) Views"@,
            C3SettingsTab::Integrations => "(2) Integrations"@,
            C3SettingsTab::LinkGroups => "(3) Link Groups"@,
            C3SettingsTab::Overviews => "(4) Overviews"@,
        }
    }

    /// The settings sub-tabs in order.
    pub fn all() -> (v: Vec<C3SettingsTab>)
        ensures
            v@ == seq![C3SettingsTab::Views, C3SettingsTab::Integrations, C3SettingsTab::LinkGroups, C3SettingsTab::Overviews],
    {
        vec![C3SettingsTab::Views, C3SettingsTab::Integrations, C3SettingsTab::LinkGroups, C3SettingsTab::Overviews]
    }

    pub fn name(&self) -> (s: &'static str)
        ensures
            s@ == self.spec_name(),
    {
        match self {
            C3SettingsTab::Views => "(1) Views",
            C3SettingsTab::Integrations => "(2) Integrations",
            C3SettingsTab::LinkGroups => "(3) Link Groups",
            C3SettingsTab::Overviews => "(4) Overviews",
        }
    }
}

/// The fields of the view editor.
#[derive(Clone, Copy, PartialEq, Eq, Structural, Debug)]
pub enum C3ViewEditorField {
    Name,
    Integrations,
    ViewRoles,
    EditRoles,
}

impl C3ViewEditorField {
    pub open spec fn spec_next(self) -> C3ViewEditorField {
        match self {
            C3ViewEditorField::Name => C3ViewEditorField::Integrations,
            C3ViewEditorField::Integrations => C3ViewEditorField::ViewRoles,
            C3ViewEditorField::ViewRoles => C3ViewEditorField::EditRoles,
            C3ViewEditorField::EditRoles => C3ViewEditorField::Name,
        }
    }

    pub open spec fn spec_prev(self) -> C3ViewEditorField {
        match self {
            C3ViewEditorField::Name => C3ViewEditorField::EditRoles,
            C3ViewEditorField::Integrations => C3ViewEditorField::Name,
            C3ViewEditorField::ViewRoles => C3ViewEditorField::Integrations,
            C3ViewEditorField::EditRoles => C3ViewEditorField::ViewRoles,
        }
    }

    pub fn next(&self) -> (r: C3ViewEditorField)
        ensures
            r == self.spec_next(),
    {
        match self {
            C3ViewEditorField::Name => C3ViewEditorField::Integrations,
            C3ViewEditorField::Integrations => C3ViewEditorField::ViewRoles,
            C3ViewEditorField::ViewRoles => C3ViewEditorField::EditRoles,
            C3ViewEditorField::EditRoles => C3ViewEditorField::Name,
        }
    }

    pub fn prev(&self) -> (r: C3ViewEditorField)
        ensures
            r == self.spec_prev(),
    {
        match self {
            C3ViewEditorField::Name => C3ViewEditorField::EditRoles,
            C3ViewEditorField::Integrations => C3ViewEditorField::Name,
            C3ViewEditorField::ViewRoles => C3ViewEditorField::Integrations,
            C3ViewEditorField::EditRoles => C3ViewEditorField::ViewRoles,
        }
    }
}

/// The level of the link group settings.
#[derive(Clone, Copy, PartialEq, Eq, Structural, Debug)]
pub enum C3LinkGroupLevel {
    GroupList,
    GroupEditor,
    LinkList,
    LinkEditor,
}

/// What a backup prompt saves.
#[derive(Clone, Copy, PartialEq, Eq, Structural, Debug)]
pub enum C3BackupKind {
    LinkGroupsAll,
    LinkGroupSingle,
    Integrations,
    Views,
    OverviewsAll,
    OverviewSingle,
}

impl C3BackupKind {
    pub open spec fn spec_title(self) -> Seq<char> {
        match self {
            C3BackupKind::LinkGroupsAll => " Backup All Link Groups "@,
            C3BackupKind::LinkGroupSingle => " Backup Link Group "@,
            C3BackupKind::Integrations => " Backup Integration Settings "@,
            C3BackupKind::Views => " Backup Integration Views "@,
            C3BackupKind::OverviewsAll => " Backup All Overviews "@,
            C3BackupKind::OverviewSingle => " Backup Overview "@,
        }
    }

    pub fn title(&self) -> (s: &'static str)
        ensures
            s@ == self.spec_title(),
    {
        match self {
            C3BackupKind::LinkGroupsAll => " Backup All Link Groups ",
            C3BackupKind::LinkGroupSingle => " Backup Link Group ",
            C3BackupKind::Integrations => " Backup Integration Settings ",
            C3BackupKind::Views => " Backup Integration Views ",
            C3BackupKind::OverviewsAll => " Backup All Overviews ",
            C3BackupKind::OverviewSingle => " Backup Overview ",
        }
    }
}

/// The fields of the link group editor.
#[derive(Clone, Copy, PartialEq, Eq, Structural, Debug)]
pub enum C3GroupEditorField {
    Name,
    ViewRoles,
    EditRoles,
}

impl C3GroupEditorField {
    pub open spec fn spec_next(self) -> C3GroupEditorField {
        match self {
            C3GroupEditorField::Name => C3GroupEditorField::ViewRoles,
            C3GroupEditorField::ViewRoles => C3GroupEditorField::EditRoles,
            C3GroupEditorField::EditRoles => C3GroupEditorField::Name,
        }
    }

    pub open spec fn spec_prev(self) -> C3GroupEditorField {
        match self {
            C3GroupEditorField::Name => C3GroupEditorField::EditRoles,
            C3GroupEditorField::ViewRoles => C3GroupEditorField::Name,
            C3GroupEditorField::EditRoles => C3GroupEditorField::ViewRoles,
        }
    }

    pub fn next(&self) -> (r: C3GroupEditorField)
        ensures
            r == self.spec_next(),
    {
        match self {
            C3GroupEditorField::Name => C3GroupEditorField::ViewRoles,
            C3GroupEditorField::ViewRoles => C3GroupEditorField::EditRoles,
            C3GroupEditorField::EditRoles => C3GroupEditorField::Name,
        }
    }

    pub fn prev(&self) -> (r: C3GroupEditorField)
        ensures
            r == self.spec_prev(),
    {
        match self {
            C3GroupEditorField::Name => C3GroupEditorField::EditRoles,
            C3GroupEditorField::ViewRoles => C3GroupEditorField::Name,
            C3GroupEditorField::EditRoles => C3GroupEditorField::ViewRoles,
        }
    }
}

/// The fields of the link editor.
#[derive(Clone, Copy, PartialEq, Eq, Structural, Debug)]
pub enum C3LinkEditorField {
    Name,
    Url,
    Itypes,
    Color,
    InfoField,
    ExternalDocName,
    ExternalDocUrl,
}

impl C3LinkEditorField {
    pub open spec fn spec_all() -> Seq<C3LinkEditorField> {
        seq![C3LinkEditorField::Name, C3LinkEditorField::Url, C3LinkEditorField::Itypes, C3LinkEditorField::Color,
            C3LinkEditorField::InfoField, C3LinkEditorField::ExternalDocName, C3LinkEditorField::ExternalDocUrl]
    }

    pub open spec fn spec_label(self) -> Seq<char> {
        match self {
            C3LinkEditorField::Name => "Name"@,
            C3LinkEditorField::Url => "URL"@,
            C3LinkEditorField::Itypes => "Indicator Types"@,
            C3LinkEditorField::Color => "Color"@,
            C3LinkEditorField::InfoField => "Info"@,
            C3LinkEditorField::ExternalDocName => "External Doc Name"@,
            C3LinkEditorField::ExternalDocUrl => "External Doc URL"@,
        }
    }

    /// The fields in the order of the editor.
    pub fn all() -> (v: Vec<C3LinkEditorField>)
        ensures
            v@ == Self::spec_all(),
    {
        vec![C3LinkEditorField::Name, C3LinkEditorField::Url, C3LinkEditorField::Itypes, C3LinkEditorField::Color,
            C3LinkEditorField::InfoField, C3LinkEditorField::ExternalDocName, C3LinkEditorField::ExternalDocUrl]
    }

    pub fn label(&self) -> (s: &'static str)
        ensures
            s@ == self.spec_label(),
    {
        match self {
            C3LinkEditorField::Name => "Name",
            C3LinkEditorField::Url => "URL",
            C3LinkEditorField::Itypes => "Indicator Types",
            C3LinkEditorField::Color => "Color",
            C3LinkEditorField::InfoField => "Info",
            C3LinkEditorField::ExternalDocName => "External Doc Name",
            C3LinkEditorField::ExternalDocUrl => "External Doc URL",
        }
    }
}

/// The level of the overview settings.
#[derive(Clone, Copy, PartialEq, Eq, Structural, Debug)]
pub enum C3OverviewLevel {
    List,
    Editor,
    FieldList,
    FieldEditor,
}

/// The fields of the overview editor.
#[derive(Clone, Copy, PartialEq, Eq, Structural, Debug)]
pub enum C3OverviewEditorField {
    Name,
    Title,
    Itype,
    ViewRoles,
    EditRoles,
}

impl C3OverviewEditorField {
    pub open spec fn spec_all() -> Seq<C3OverviewEditorField> {
        seq![C3OverviewEditorField::Name, C3OverviewEditorField::Title, C3OverviewEditorField::Itype,
            C3OverviewEditorField::ViewRoles, C3OverviewEditorField::EditRoles]
    }

    pub open spec fn spec_label(self) -> Seq<char> {
        match self {
            C3OverviewEditorField::Name => "Name"@,
            C3OverviewEditorField::Title => "Title"@,
            C3OverviewEditorField::Itype => "IType"@,
            C3OverviewEditorField::ViewRoles => "View Roles"@,
            C3OverviewEditorField::EditRoles => "Edit Roles"@,
        }
    }

    pub open spec fn spec_next(self) -> C3OverviewEditorField {
        match self {
            C3OverviewEditorField::Name => C3OverviewEditorField::Title,
            C3OverviewEditorField::Title => C3OverviewEditorField::Itype,
            C3OverviewEditorField::Itype => C3OverviewEditorField::ViewRoles,
            C3OverviewEditorField::ViewRoles => C3OverviewEditorField::EditRoles,
            C3OverviewEditorField::EditRoles => C3OverviewEditorField::Name,
        }
    }

    pub open spec fn spec_prev(self) -> C3OverviewEditorField {
        match self {
            C3OverviewEditorField::Name => C3OverviewEditorField::EditRoles,
            C3OverviewEditorField::Title => C3OverviewEditorField::Name,
            C3OverviewEditorField::Itype => C3OverviewEditorField::Title,
            C3OverviewEditorField::ViewRoles => C3OverviewEditorField::Itype,
            C3OverviewEditorField::EditRoles => C3OverviewEditorField::ViewRoles,
        }
    }

    /// The fields in the order of the editor.
    pub fn all() -> (v: Vec<C3OverviewEditorField>)
        ensures
            v@ == Self::spec_all(),
    {
        vec![C3OverviewEditorField::Name, C3OverviewEditorField::Title, C3OverviewEditorField::Itype,
            C3OverviewEditorField::ViewRoles, C3OverviewEditorField::EditRoles]
    }

    pub fn label(&self) -> (s: &'static str)
        ensures
            s@ == self.spec_label(),
    {
        match self {
            C3OverviewEditorField::Name => "Name",
            C3OverviewEditorField::Title => "Title",
            C3OverviewEditorField::Itype => "IType",
            C3OverviewEditorField::ViewRoles => "View Roles",
            C3OverviewEditorField::EditRoles => "Edit Roles",
        }
    }

    pub fn next(&self) -> (r: C3OverviewEditorField)
        ensures
            r == self.spec_next(),
    {
        match self {
            C3OverviewEditorField::Name => C3OverviewEditorField::Title,
            C3OverviewEditorField::Title => C3OverviewEditorField::Itype,
            C3OverviewEditorField::Itype => C3OverviewEditorField::ViewRoles,
            C3OverviewEditorField::ViewRoles => C3OverviewEditorField::EditRoles,
            C3OverviewEditorField::EditRoles => C3OverviewEditorField::Name,
        }
    }

    pub fn prev(&self) -> (r: C3OverviewEditorField)
        ensures
            r == self.spec_prev(),
    {
        match self {
            C3OverviewEditorField::Name => C3OverviewEditorField::EditRoles,
            C3OverviewEditorField::Title => C3OverviewEditorField::Name,
            C3OverviewEditorField::Itype => C3OverviewEditorField::Title,
            C3OverviewEditorField::ViewRoles => C3OverviewEditorField::Itype,
            C3OverviewEditorField::EditRoles => C3OverviewEditorField::ViewRoles,
        }
    }
}

/// The fields of the overview field editor. A custom field has only the source
/// and the JSON; a plain one has the source, the field and the label.
#[derive(Clone, Copy, PartialEq, Eq, Structural, Debug)]
pub enum C3OvFieldEditorField {
    From,
    Field,
    Label,
    CustomJson,
}

impl C3OvFieldEditorField {
    pub open spec fn spec_next(self, is_custom: bool) -> C3OvFieldEditorField {
        if is_custom {
            match self {
                C3OvFieldEditorField::From => C3OvFieldEditorField::CustomJson,
                _ => C3OvFieldEditorField::From,
            }
        } else {
            match self {
                C3OvFieldEditorField::From => C3OvFieldEditorField::Field,
                C3OvFieldEditorField::Field => C3OvFieldEditorField::Label,
                _ => C3OvFieldEditorField::From,
            }
        }
    }

    pub open spec fn spec_prev(self, is_custom: bool) -> C3OvFieldEditorField {
        if is_custom {
            match self {
                C3OvFieldEditorField::From => C3OvFieldEditorField::CustomJson,
                _ => C3OvFieldEditorField::From,
            }
        } else {
            match self {
                C3OvFieldEditorField::From => C3OvFieldEditorField::Label,
                C3OvFieldEditorField::Field => C3OvFieldEditorField::From,
                _ => C3OvFieldEditorField::Field,
            }
        }
    }

    /// The fields that the editor shows.
    pub open spec fn spec_in_editor(self, is_custom: bool) -> bool {
        if is_custom {
            self == C3OvFieldEditorField::From || self == C3OvFieldEditorField::CustomJson
        } else {
            self != C3OvFieldEditorField::CustomJson
        }
    }

    pub fn next(&self, is_custom: bool) -> (r: C3OvFieldEditorField)
        ensures
            r == self.spec_next(is_custom),
    {
        if is_custom {
            match self {
                C3OvFieldEditorField::From => C3OvFieldEditorField::CustomJson,
                _ => C3OvFieldEditorField::From,
            }
        } else {
            match self {
                C3OvFieldEditorField::From => C3OvFieldEditorField::Field,
                C3OvFieldEditorField::Field => C3OvFieldEditorField::Label,
                _ => C3OvFieldEditorField::From,
            }
        }
    }

    pub fn prev(&self, is_custom: bool) -> (r: C3OvFieldEditorField)
        ensures
            r == self.spec_prev(is_custom),
    {
        if is_custom {
            match self {
                C3OvFieldEditorField::From => C3OvFieldEditorField::CustomJson,
                _ => C3OvFieldEditorField::From,
            }
        } else {
            match self {
                C3OvFieldEditorField::From => C3OvFieldEditorField::Label,
                C3OvFieldEditorField::Field => C3OvFieldEditorField::From,
                _ => C3OvFieldEditorField::Field,
            }
        }
    }
}

/// Moving through the editors' fields: previous undoes next and next undoes previous;
/// for the overview field editor this holds on the fields that the editor shows, and
/// moving never leaves them.
pub proof fn lemma_c3_editor_fields_prev_next(
    v: C3ViewEditorField,
    g: C3GroupEditorField,
    o: C3OverviewEditorField,
    f: C3OvFieldEditorField,
    is_custom: bool,
)
    ensures
        v.spec_next().spec_prev() == v,
        v.spec_prev().spec_next() == v,
        g.spec_next().spec_prev() == g,
        g.spec_prev().spec_next() == g,
        o.spec_next().spec_prev() == o,
        o.spec_prev().spec_next() == o,
        f.spec_in_editor(is_custom) ==> f.spec_next(is_custom).spec_prev(is_custom) == f,
        f.spec_in_editor(is_custom) ==> f.spec_prev(is_custom).spec_next(is_custom) == f,
        f.spec_next(is_custom).spec_in_editor(is_custom),
        f.spec_prev(is_custom).spec_in_editor(is_custom),
{
}

/// The sub-tabs of the Cont3xt stats.
#[derive(Clone, Copy, PartialEq, Eq, Structural, Debug)]
pub enum C3StatsTab {
    Integrations,
    ITypes,
}

/// A column of the Cont3xt stats tables: (api field, label, width).
pub open spec fn spec_c3_stats_columns() -> Seq<(Seq<char>, Seq<char>, u16)> {
    seq![
        ("name"@, "Name"@, 20u16),
        ("cacheLookup"@, "Cache Lookup"@, 13u16),
        ("cacheFound"@, "Cache Found"@, 12u16),
        ("cacheGood"@, "Cache Good"@, 11u16),
        ("cacheRecentAvgMS"@, "Cache Avg MS"@, 13u16),
        ("directLookup"@, "Direct Lookup"@, 14u16),
        ("directFound"@, "Direct Found"@, 13u16),
        ("directGood"@, "Direct Good"@, 12u16),
        ("directError"@, "Direct Error"@, 13u16),
        ("directRecentAvgMS"@, "Direct Avg MS"@, 14u16),
        ("total"@, "Total"@, 10u16),
    ]
}

pub open spec fn triple_views(s: Seq<(&str, &str, u16)>) -> Seq<(Seq<char>, Seq<char>, u16)> {
    s.map_values(|t: (&str, &str, u16)| (t.0@, t.1@, t.2))
}

impl C3StatsTab {
    pub open spec fn spec_name(self) -> Seq<char> {
        match self {
            C3StatsTab::Integrations => "(1) Integrations"@,
            C3StatsTab::ITypes => "(2) iTypes"@,
        }
    }

    /// The sub-tabs in order.
    pub fn all() -> (v: Vec<C3StatsTab>)
        ensures
            v@ == seq![C3StatsTab::Integrations, C3StatsTab::ITypes],
    {
        vec![C3StatsTab::Integrations, C3StatsTab::ITypes]
    }

    pub fn name(&self) -> (s: &'static str)
        ensures
            s@ == self.spec_name(),
    {
        match self {
            C3StatsTab::Integrations => "(1) Integrations",
            C3StatsTab::ITypes => "(2) iTypes",
        }
    }

    /// The columns of the sub-tab; both sub-tabs share them.
    pub fn columns(&self) -> (v: Vec<(&'static str, &'static str, u16)>)
        ensures
            triple_views(v@) == spec_c3_stats_columns(),
    {
        let v = vec![
            ("name", "Name", 20u16),
            ("cacheLookup", "Cache Lookup", 13u16),
            ("cacheFound", "Cache Found", 12u16),
            ("cacheGood", "Cache Good", 11u16),
            ("cacheRecentAvgMS", "Cache Avg MS", 13u16),
            ("directLookup", "Direct Lookup", 14u16),
            ("directFound", "Direct Found", 13u16),
            ("directGood", "Direct Good", 12u16),
            ("directError", "Direct Error", 13u16),
            ("directRecentAvgMS", "Direct Avg MS", 14u16),
            ("total", "Total", 10u16),
        ];
        assert(triple_views(v@) =~= spec_c3_stats_columns());
        v
    }
}

/// The columns of the Cont3xt history table: (api field, label, width, sortable).
pub fn c3_history_columns() -> (v: Vec<(&'static str, &'static str, u16, bool)>)
    ensures
        v@.len() == 6,
        v@[0].0@ == "issuedAt"@ && v@[0].1@ == "Time"@ && v@[0].2 == 18 && v@[0].3,
        v@[1].0@ == "iType"@ && v@[1].1@ == "iType"@ && v@[1].2 == 8 && v@[1].3,
        v@[2].0@ == "indicator"@ && v@[2].1@ == "Indicator"@ && v@[2].2 == 30 && v@[2].3,
        v@[3].0@ == "tags"@ && v@[3].1@ == "Tags"@ && v@[3].2 == 15 && !v@[3].3,
        v@[4].0@ == "resultCount"@ && v@[4].1@ == "Results"@ && v@[4].2 == 8 && v@[4].3,
        v@[5].0@ == "took"@ && v@[5].1@ == "Took"@ && v@[5].2 == 8 && v@[5].3,
{
    vec![
        ("issuedAt", "Time", 18u16, true),
        ("iType", "iType", 8u16, true),
        ("indicator", "Indicator", 30u16, true),
        ("tags", "Tags", 15u16, false),
        ("resultCount", "Results", 8u16, true),
        ("took", "Took", 8u16, true),
    ]
}

} // verus!
