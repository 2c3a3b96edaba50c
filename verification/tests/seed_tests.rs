use analytics::seed::{total_weight, visit, weighted_index, PageDraw, SeedKind};

#[test]
fn weights_and_picks() {
    let w = [40u32, 10, 0, 8];
    assert_eq!(total_weight(&w), 58);
    assert_eq!(weighted_index(&w, 0), 0);
    assert_eq!(weighted_index(&w, 39), 0);
    assert_eq!(weighted_index(&w, 40), 1);
    assert_eq!(weighted_index(&w, 49), 1);
    assert_eq!(weighted_index(&w, 50), 3);
    assert_eq!(weighted_index(&w, 57), 3);
}

#[test]
fn picks_are_proportional_to_weights() {
    let w = [3u32, 1, 2];
    let mut hits = [0; 3];
    for p in 0..total_weight(&w) {
        hits[weighted_index(&w, p)] += 1;
    }
    assert_eq!(hits, [3, 1, 2]);
}

#[test]
fn a_visit_timeline() {
    let pages = vec![
        PageDraw { page: 2, time_on_page: 5000, click_offset: Some(800), gap: 1000 },
        PageDraw { page: 7, time_on_page: 2000, click_offset: None, gap: 500 },
    ];
    let ev = visit(&pages, 1_000_000);
    assert_eq!(ev.len(), 1 + 3 + 2);
    assert!(matches!(ev[0].kind, SeedKind::SessionStart));
    assert_eq!((ev[0].at, ev[0].page, ev[0].with_referrer, ev[0].with_utm), (1_000_000, 2, true, true));
    assert!(matches!(ev[1].kind, SeedKind::PageView));
    assert_eq!((ev[1].at, ev[1].with_referrer), (1_000_000, true));
    assert!(matches!(ev[2].kind, SeedKind::Click));
    assert_eq!((ev[2].at, ev[2].with_utm), (1_000_800, false));
    assert!(matches!(ev[3].kind, SeedKind::PageLeave));
    assert_eq!((ev[3].at, ev[3].time_on_page), (1_005_000, Some(5000)));
    assert!(matches!(ev[4].kind, SeedKind::PageView));
    assert_eq!((ev[4].at, ev[4].page, ev[4].with_referrer), (1_006_000, 7, false));
    assert_eq!((ev[5].at, ev[5].time_on_page), (1_008_000, Some(2000)));
}
