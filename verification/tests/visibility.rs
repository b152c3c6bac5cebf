use lightgrid::room::Tile;
use lightgrid::visibility::{cells_within, lamp_point, tile_square, wall_squares, Square, TILE_SIZE};

#[test]
fn tiles_are_sixteen_wide() {
    assert_eq!(TILE_SIZE, 16);
    assert_eq!(tile_square(0, 0), Square { left: 0, top: 0 });
    assert_eq!(tile_square(3, 5), Square { left: 48, top: 80 });
    assert_eq!(
        tile_square(i32::MAX as usize, i32::MAX as usize),
        Square { left: 34359738352, top: 34359738352 }
    );
}

#[test]
fn lamps_shine_from_the_middle_of_their_tile() {
    assert_eq!(lamp_point(0, 0), (8, 8));
    assert_eq!(lamp_point(9, 4), (152, 72));
    assert_eq!(lamp_point(-1, -2), (-8, -24));
    assert_eq!(lamp_point(i32::MAX, i32::MIN), (34359738360, -34359738360));
}

#[test]
fn walls_are_the_opaque_tiles_in_reading_order() {
    let tiles = vec![
        Tile::Wall, Tile::Floor, Tile::Wall,
        Tile::Floor, Tile::Floor, Tile::Wall,
        Tile::Wall,
    ];
    assert_eq!(
        wall_squares(&tiles, 3),
        vec![
            Square { left: 0, top: 0 },
            Square { left: 32, top: 0 },
            Square { left: 32, top: 16 },
            Square { left: 0, top: 32 },
        ]
    );
    assert_eq!(wall_squares(&vec![], 3), vec![]);
    assert_eq!(wall_squares(&vec![Tile::Floor; 5], 2), vec![]);
}

#[test]
fn cells_within_scans_in_reading_order() {
    assert_eq!(cells_within(3, 2, &|_, _| true), vec![0, 1, 2, 3, 4, 5]);
    assert_eq!(cells_within(3, 2, &|_, _| false), vec![]);
    assert_eq!(cells_within(3, 2, &|x, y| (x + y) % 2 == 0), vec![0, 2, 4]);
    assert_eq!(cells_within(4, 3, &|x, y| x == 1 && y > 0), vec![5, 9]);
    assert_eq!(cells_within(0, 7, &|_, _| true), vec![]);
    assert_eq!(cells_within(7, 0, &|_, _| true), vec![]);
}

#[test]
fn cells_within_asks_of_each_tile_once() {
    let asked = std::cell::RefCell::new(Vec::new());
    let cells = cells_within(2, 3, &|x, y| {
        asked.borrow_mut().push((x, y));
        y == 2
    });
    assert_eq!(cells, vec![4, 5]);
    assert_eq!(*asked.borrow(), vec![(0, 0), (1, 0), (0, 1), (1, 1), (0, 2), (1, 2)]);
}
