use capture_gui::assets::{icon_name_at, Assets, ICON_COUNT};

#[test]
fn asset_paths_name_icons() {
    let a = Assets;
    assert_eq!(a.load("icons/folder.svg"), Some(0));
    assert_eq!(a.load("icons/list-tree.svg"), Some(18));
    assert_eq!(a.load("mic.svg"), Some(6));
    assert_eq!(a.load("icons/nothing.svg"), None);
    assert_eq!(a.load("icons/folder"), None);
    assert_eq!(a.load("folder"), Some(0));
    assert_eq!(a.load(""), None);
}

#[test]
fn every_icon_is_listed_under_icons() {
    let a = Assets;
    let l = a.list();
    assert_eq!(l.len(), ICON_COUNT);
    assert_eq!(l[0], "icons/folder.svg");
    assert_eq!(l[18], "icons/list-tree.svg");
    for (i, p) in l.iter().enumerate() {
        assert_eq!(a.load(p), Some(i));
        assert_eq!(p, &format!("icons/{}.svg", icon_name_at(i)));
    }
}
