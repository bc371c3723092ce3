use file_tree::layout::{center, prompt_row, PreviewLayout, Rect, MIN_HEIGHT, MIN_WIDTH};

const AREA: Rect = Rect {
    x: 0,
    y: 0,
    width: 100,
    height: 40,
};

#[test]
fn right_splits_the_width() {
    let (list, preview) = PreviewLayout::Right.split(AREA);
    let preview = preview.unwrap();
    assert_eq!((list.width, list.height), (50, 40));
    assert_eq!((preview.x, preview.width, preview.height), (50, 50, 40));
}

#[test]
fn bottom_splits_the_height() {
    let (list, preview) = PreviewLayout::Bottom.split(AREA);
    let preview = preview.unwrap();
    assert_eq!((list.width, list.height), (100, 20));
    assert_eq!((preview.y, preview.width, preview.height), (20, 100, 20));
}

#[test]
fn no_preview_when_there_is_no_room() {
    let narrow = Rect {
        width: MIN_WIDTH,
        ..AREA
    };
    assert_eq!(PreviewLayout::Right.split(narrow), (narrow, None));

    let short = Rect {
        height: MIN_HEIGHT,
        ..AREA
    };
    assert_eq!(PreviewLayout::Bottom.split(short), (short, None));
}

#[test]
fn each_layout_only_minds_its_own_dimension() {
    // A short-but-wide area still gets a side-by-side preview, and a
    // narrow-but-tall one still gets a stacked preview.
    let short = Rect { height: 4, ..AREA };
    assert!(PreviewLayout::Right.split(short).1.is_some());

    let narrow = Rect { width: 20, ..AREA };
    assert!(PreviewLayout::Bottom.split(narrow).1.is_some());
}

#[test]
fn the_limits_are_exact() {
    assert_eq!((MIN_WIDTH, MIN_HEIGHT), (72, 20));

    let wide = Rect { width: 73, ..AREA };
    let (list, preview) = PreviewLayout::Right.split(wide);
    assert_eq!(list, Rect { width: 36, ..wide });
    assert_eq!(preview, Some(Rect { x: 36, width: 37, ..wide }));

    let tall = Rect { y: 3, height: 21, ..AREA };
    let (list, preview) = PreviewLayout::Bottom.split(tall);
    assert_eq!(list, Rect { height: 10, ..tall });
    assert_eq!(preview, Some(Rect { y: 13, height: 11, ..tall }));
}

#[test]
fn the_shares_cover_the_area_once() {
    let area = Rect { x: 5, y: 7, width: 75, height: 25 };
    for layout in [PreviewLayout::Right, PreviewLayout::Bottom] {
        let (list, preview) = layout.split(area);
        let preview = preview.unwrap();
        for column in 0..100 {
            for row in 0..50 {
                let inside = |rect: Rect| {
                    rect.x <= column
                        && column < rect.x + rect.width
                        && rect.y <= row
                        && row < rect.y + rect.height
                };
                assert_eq!(inside(area), inside(list) != inside(preview));
            }
        }
    }
}

#[test]
fn the_default_layout_is_beside_the_list() {
    assert_eq!(PreviewLayout::default(), PreviewLayout::Right);
}

#[test]
fn clipping_stops_at_nothing() {
    let area = Rect { x: 2, y: 3, width: 10, height: 5 };

    assert_eq!(area.clip_left(4), Rect { x: 6, y: 3, width: 6, height: 5 });
    assert_eq!(area.clip_left(40), Rect { x: 12, y: 3, width: 0, height: 5 });
    assert_eq!(area.clip_top(2), Rect { x: 2, y: 5, width: 10, height: 3 });
    assert_eq!(area.clip_top(40), Rect { x: 2, y: 8, width: 10, height: 0 });
    assert_eq!(area.clip_bottom(1), Rect { x: 2, y: 3, width: 10, height: 4 });
    assert_eq!(area.clip_bottom(40), Rect { x: 2, y: 3, width: 10, height: 0 });
}

#[test]
fn text_is_centered_in_the_room_there_is() {
    assert_eq!(center(Rect { x: 10, y: 4, width: 21, height: 9 }, 7), (17, 8));
    assert_eq!(center(Rect { x: 10, y: 4, width: 3, height: 1 }, 7), (10, 4));
    assert_eq!(center(Rect { x: 65535, y: 65535, width: 65535, height: 65535 }, 0), (98302, 98302));
}

#[test]
fn the_prompt_is_in_the_bottom_row() {
    let inner = Rect { x: 1, y: 1, width: 98, height: 38 };
    assert_eq!(prompt_row(inner), Rect { x: 1, y: 38, width: 98, height: 1 });

    let none = Rect { x: 1, y: 1, width: 98, height: 0 };
    assert_eq!(prompt_row(none), Rect { x: 1, y: 1, width: 98, height: 1 });
}
