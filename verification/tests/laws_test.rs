use alkeme::app::columns::{capture_all_columns, stats_columns_from_fields, stats_tab_all_columns, stats_tab_default_fields, StatsColumnDef};
use alkeme::app::cont3xt::{C3GroupEditorField, C3OvFieldEditorField, C3OverviewEditorField, C3ViewEditorField};
use alkeme::app::parliament::{PlClusterEditorField, PlIssueSort};
use alkeme::app::stats_columns::{apply_stats_items, build_stats_editor_items};
use alkeme::app::types::{
    ActionKind, ActionMenu, ActionTarget, AppMode, CaptureGraphHide, CaptureGraphInterval, GraphSize, GraphType,
    LineMode, ShardsShow, StatsTab, SummaryMetric, SummarySort, Tab,
};

#[test]
fn every_mode_opens_on_one_of_its_tabs_and_ends_with_settings() {
    for mode in [AppMode::Viewer, AppMode::Cont3xt, AppMode::Wise, AppMode::Parliament] {
        let tabs = mode.tabs();
        assert!(tabs.contains(&mode.default_tab()));
        assert_eq!(*tabs.last().unwrap(), Tab::Settings);
    }
    assert_eq!(AppMode::Viewer.default_tab(), Tab::Sessions);
}

#[test]
fn graph_visible_exactly_when_it_has_height() {
    for g in [GraphSize::Off, GraphSize::Small, GraphSize::Large] {
        assert_eq!(g.is_visible(), g.height() > 0);
    }
}

#[test]
fn column_indices_are_distinct_and_small() {
    let idx: Vec<usize> = StatsTab::all().iter().filter_map(|t| t.col_index()).collect();
    for (a, x) in idx.iter().enumerate() {
        assert!(*x < 5);
        for y in idx.iter().skip(a + 1) {
            assert_ne!(x, y);
        }
    }
    assert_eq!(StatsTab::CaptureGraphs.col_index(), None);
}

#[test]
fn intervals_grow_then_restart() {
    let i = CaptureGraphInterval::FiveSec;
    assert!(i.next().seconds() > i.seconds());
    assert!(i.next().next().seconds() > i.next().seconds());
    assert_eq!(CaptureGraphInterval::TenMin.next(), CaptureGraphInterval::FiveSec);
}

#[test]
fn selectors_cycle_back() {
    for g in GraphType::all() {
        assert_eq!(g.next().next().next(), g);
    }
    for l in [LineMode::Off, LineMode::Hex, LineMode::Decimal] {
        assert_eq!(l.next().next().next(), l);
    }
    for m in SummaryMetric::all() {
        assert_eq!(m.next().next().next(), m);
    }
    for o in SummarySort::all() {
        assert_eq!(o.next().next().next().next(), o);
    }
    for h in [CaptureGraphHide::Neither, CaptureGraphHide::Old, CaptureGraphHide::NoSessions, CaptureGraphHide::Both] {
        assert_eq!(h.next().next().next().next(), h);
    }
    let all_shards = ShardsShow::all();
    for s in all_shards.iter() {
        let mut t = *s;
        for _ in 0..all_shards.len() {
            t = t.next();
        }
        assert_eq!(t, *s);
    }
}

#[test]
fn action_menu_options_follow_target_and_permission() {
    let menu = |target| ActionMenu {
        target,
        selected: 0,
        session_id: None,
        session_node: None,
        scope: None,
        pending_kind: None,
    };
    assert_eq!(menu(ActionTarget::Single).options(false), vec![ActionKind::DownloadPcap, ActionKind::AddTags]);
    assert_eq!(
        menu(ActionTarget::All).options(true),
        vec![ActionKind::DownloadPcap, ActionKind::ExportCsv, ActionKind::AddTags, ActionKind::RemoveTags]
    );
}

#[test]
fn issue_sort_cycles_in_five_steps() {
    for s in PlIssueSort::all() {
        assert_eq!(s.next().next().next().next().next(), s);
    }
    assert_eq!(PlIssueSort::Cluster.next(), PlIssueSort::Title);
}

#[test]
fn cluster_editor_toggles_follow_type() {
    for (i, f) in PlClusterEditorField::all().iter().enumerate() {
        assert_eq!(f.is_bool(), i >= 5);
    }
}

#[test]
fn cont3xt_editor_prev_undoes_next() {
    for v in [C3ViewEditorField::Name, C3ViewEditorField::Integrations, C3ViewEditorField::ViewRoles, C3ViewEditorField::EditRoles] {
        assert_eq!(v.next().prev(), v);
        assert_eq!(v.prev().next(), v);
    }
    for g in [C3GroupEditorField::Name, C3GroupEditorField::ViewRoles, C3GroupEditorField::EditRoles] {
        assert_eq!(g.next().prev(), g);
        assert_eq!(g.prev().next(), g);
    }
    for o in C3OverviewEditorField::all() {
        assert_eq!(o.next().prev(), o);
        assert_eq!(o.prev().next(), o);
    }
    for f in [C3OvFieldEditorField::From, C3OvFieldEditorField::Field, C3OvFieldEditorField::Label] {
        assert_eq!(f.next(false).prev(false), f);
        assert_eq!(f.prev(false).next(false), f);
        assert_ne!(f.next(false), C3OvFieldEditorField::CustomJson);
    }
    for f in [C3OvFieldEditorField::From, C3OvFieldEditorField::CustomJson] {
        assert_eq!(f.next(true).prev(true), f);
    }
    assert_eq!(C3OvFieldEditorField::Label.next(true), C3OvFieldEditorField::From);
}

#[test]
fn stats_editor_unchanged_gives_back_the_columns() {
    let all = capture_all_columns();
    let active: Vec<StatsColumnDef> = vec![all[3].duplicate(), all[0].duplicate(), all[5].duplicate()];
    let items = build_stats_editor_items(&active, &all);
    assert_eq!(items.len(), all.len());
    assert!(items[..3].iter().all(|i| i.enabled));
    assert!(items[3..].iter().all(|i| !i.enabled));
    let cols = apply_stats_items(&items, &all);
    let fields: Vec<&str> = cols.iter().map(|c| c.field.as_str()).collect();
    let expected: Vec<&str> = active.iter().map(|c| c.field.as_str()).collect();
    assert_eq!(fields, expected);
}

#[test]
fn stats_defaults_name_their_columns_once() {
    for tab in StatsTab::all() {
        let d = stats_tab_default_fields(tab);
        for (i, a) in d.iter().enumerate() {
            assert!(!d[i + 1..].contains(a));
        }
        let cols = stats_columns_from_fields(&d, &stats_tab_all_columns(tab));
        let fields: Vec<&str> = cols.iter().map(|c| c.field.as_str()).collect();
        assert_eq!(fields, d);
        assert_eq!(d.is_empty(), tab == StatsTab::CaptureGraphs || tab == StatsTab::DBShards);
    }
}
