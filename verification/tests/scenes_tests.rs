use rich_rust::scenes::{DashboardScene, ExportScene, LayoutScene};

#[test]
fn dashboard_scene_has_correct_name() {
    let scene = DashboardScene::new();
    assert_eq!(scene.name(), "dashboard");
}

#[test]
fn export_scene_has_correct_name() {
    let scene = ExportScene::new();
    assert_eq!(scene.name(), "export");
}

#[test]
fn layout_scene_has_correct_name() {
    let scene = LayoutScene::new();
    assert_eq!(scene.name(), "layout");
}

#[test]
fn scene_summaries() {
    assert_eq!(ExportScene::new().summary(), "Export HTML/SVG bundle with viewing instructions.");
}
