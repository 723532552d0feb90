use servo::geometry::{Point2D, Rect, Size2D};
use servo::tiling::{divide_into_tiles, is_tileable, Tile};

fn size(width: usize, height: usize) -> Size2D {
    Size2D { width, height }
}

fn tile(rect: (usize, usize), screen: (usize, usize), width: usize, height: usize) -> Tile {
    Tile {
        rect: Rect { origin: Point2D { x: rect.0, y: rect.1 }, size: size(width, height) },
        screen_pos: Rect { origin: Point2D { x: screen.0, y: screen.1 }, size: size(width, height) },
        stride: width * 4,
    }
}

#[test]
fn tiles_are_cut_off_at_the_edge() {
    assert_eq!(
        divide_into_tiles(size(5, 3), 2, 1),
        vec![
            tile((0, 0), (0, 0), 2, 2),
            tile((2, 0), (2, 0), 2, 2),
            tile((4, 0), (4, 0), 1, 2),
            tile((0, 2), (0, 2), 2, 1),
            tile((2, 2), (2, 2), 2, 1),
            tile((4, 2), (4, 2), 1, 1),
        ]
    );
}

#[test]
fn zoom_scales_the_screen_but_not_the_page() {
    assert_eq!(
        divide_into_tiles(size(3, 1), 4, 2),
        vec![tile((0, 0), (0, 0), 4, 2), tile((2, 0), (4, 0), 2, 2)]
    );
    assert_eq!(
        divide_into_tiles(size(2, 1), 4, 3),
        vec![tile((0, 0), (0, 0), 4, 3), tile((1, 0), (4, 0), 2, 3)]
    );
}

#[test]
fn one_tile_can_hold_a_small_layer() {
    assert_eq!(divide_into_tiles(size(10, 20), 512, 1), vec![tile((0, 0), (0, 0), 10, 20)]);
}

#[test]
fn an_empty_layer_has_no_tiles() {
    assert!(divide_into_tiles(size(0, 20), 512, 1).is_empty());
    assert!(divide_into_tiles(size(20, 0), 512, 1).is_empty());
    assert!(divide_into_tiles(size(20, 20), 512, 0).is_empty());
    assert!(divide_into_tiles(size(20, 0), 0, 1).is_empty());
}

#[test]
fn a_huge_tile_size_does_not_overflow() {
    assert_eq!(
        divide_into_tiles(size(7, 7), usize::MAX, 1),
        vec![tile((0, 0), (0, 0), 7, 7)]
    );
}

#[test]
fn every_pixel_lies_in_exactly_one_tile() {
    let tiles = divide_into_tiles(size(7, 5), 3, 2);
    assert_eq!(tiles.len(), 5 * 4);
    for x in 0..20 {
        for y in 0..20 {
            let covering = tiles
                .iter()
                .filter(|t| {
                    let r = t.screen_pos;
                    r.origin.x <= x
                        && x < r.origin.x + r.size.width
                        && r.origin.y <= y
                        && y < r.origin.y + r.size.height
                })
                .count();
            assert_eq!(covering, if x < 14 && y < 10 { 1 } else { 0 });
        }
    }
}

#[test]
fn tile_sizes_and_strides_agree() {
    for t in divide_into_tiles(size(9, 9), 4, 1) {
        assert!(0 < t.screen_pos.size.width && t.screen_pos.size.width <= 4);
        assert!(0 < t.screen_pos.size.height && t.screen_pos.size.height <= 4);
        assert_eq!(t.rect.size, t.screen_pos.size);
        assert_eq!(t.stride, 4 * t.screen_pos.size.width);
    }
}

#[test]
fn which_layers_are_tileable() {
    assert!(is_tileable(size(800, 600), 512, 1));
    assert!(is_tileable(size(800, 600), 512, 0));
    assert!(is_tileable(size(800, 0), 0, 1));
    assert!(is_tileable(size(usize::MAX, 0), 512, 2));
    assert!(!is_tileable(size(800, 600), 0, 1));
    assert!(!is_tileable(size(0, 600), 0, 1));
    assert!(!is_tileable(size(usize::MAX, 1), 512, 2));
    assert!(!is_tileable(size(1, usize::MAX), 512, 2));
    assert!(is_tileable(size(usize::MAX, 1), 512, 1));
    assert!(!is_tileable(size(usize::MAX, 1), usize::MAX, 1));
    assert!(is_tileable(size(usize::MAX / 4, 1), usize::MAX, 1));
}
