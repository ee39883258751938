use archon::widgets::{draw_order, topmost, z_above, Metric, WidgetKind};

#[test]
fn new_widgets_go_on_top() {
    assert_eq!(z_above(&vec![]), 1);
    assert_eq!(z_above(&vec![1, 5, 2]), 6);
    assert_eq!(z_above(&vec![-4, -9]), -3);
}

#[test]
fn topmost_prefers_higher_z_then_later() {
    let zs = vec![1, 3, 3, 2];
    assert_eq!(topmost(&zs, &vec![true, true, true, true]), Some(2));
    assert_eq!(topmost(&zs, &vec![true, true, false, true]), Some(1));
    assert_eq!(topmost(&zs, &vec![true, false, false, true]), Some(3));
    assert_eq!(topmost(&zs, &vec![false; 4]), None);
}

#[test]
fn draw_order_is_a_stable_sort_by_z() {
    assert_eq!(draw_order(&vec![3, 1, 2, 1]), vec![1, 3, 2, 0]);
    assert_eq!(draw_order(&vec![]), Vec::<usize>::new());
    assert_eq!(draw_order(&vec![0, 0, 0]), vec![0, 1, 2]);
}

#[test]
fn widget_kinds_compare_by_content() {
    let a = WidgetKind::Clock { format: "%H:%M".into(), show_seconds: false };
    assert_eq!(a.clone(), a);
    assert_ne!(WidgetKind::SystemMonitor { metric: Metric::Gpu }, WidgetKind::SystemMonitor { metric: Metric::Cpu });
}
