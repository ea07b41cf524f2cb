use ficture::cell::Cell;
use ficture::grid::Grid;

#[test]
fn test_return_single_fills_map() {
    let example_cell = Cell { elevation: 510_000, moisture: 0 };
    let map = Grid::return_single(example_cell.clone(), 10, 10);
    let mut size = 0;

    let mut cells = map.iter();
    while let Some(cell) = cells.next() {
        assert_eq!(*cell, example_cell);
        size += 1;
    }

    assert_eq!(size, map.width() * map.height());
}

#[test]
fn test_and_then_maps_cells() {
    let map = Grid::return_single(Cell { elevation: 0, moisture: 0 }, 10, 10);
    let map = map.and_then(|cell| cell.elevation);

    let mut elevations = map.iter();
    while let Some(elevation) = elevations.next() {
        assert_eq!(*elevation, 0);
    }
}

#[test]
fn test_and_then_with_coordinates_maps_cells() {
    let map = Grid::return_single(Cell { elevation: 0, moisture: 0 }, 10, 10);
    let map = map.and_then_with_coordinates(|_, x, y| x * y);
    let mut map_iter = map.iter();

    for y in 0..map.height() {
        for x in 0..map.width() {
            let elevation = map_iter.next().unwrap();

            assert_eq!(*elevation, x * y);
        }
    }
}

#[test]
fn test_extract() {
    let map = Grid::return_single(Cell { elevation: 0, moisture: 0 }, 10, 10);
    let map = map.and_then_with_coordinates(|_, x, y| y * 10 + x);

    map.extract(|values, width, height| {
        let mut values_iter = values.iter();

        for y in 0..height {
            for x in 0..width {
                assert_eq!(*values_iter.next().unwrap(), y * width + x);
            }
        }
    });
}

#[test]
fn test_and_then_transforms_every_cell() {
    let map = Grid::return_single(Cell { elevation: 100, moisture: 200 }, 4, 3);
    let map = map.and_then(|cell| Cell {
        elevation: cell.elevation + 1,
        moisture: cell.moisture * 2,
    });

    let mut count = 0;
    let mut cells = map.iter();
    while let Some(cell) = cells.next() {
        assert_eq!(*cell, Cell { elevation: 101, moisture: 400 });
        count += 1;
    }
    assert_eq!(count, 12);
    assert_eq!(map.width(), 4);
    assert_eq!(map.height(), 3);
}

#[test]
fn test_coordinate_fill_two_by_two() {
    // a 2x2 grid where the elevation is x/2 and the moisture is y/2,
    // in millionths, read back in row-major order
    let map = Grid::return_single(Cell { elevation: 0, moisture: 0 }, 2, 2);
    let map = map.and_then_with_coordinates(|_, x, y| Cell {
        elevation: (x as i64) * 500_000,
        moisture: (y as i64) * 500_000,
    });

    let cells = map.extract(|values, _, _| values);
    assert_eq!(
        cells,
        vec![
            Cell { elevation: 0, moisture: 0 },
            Cell { elevation: 500_000, moisture: 0 },
            Cell { elevation: 0, moisture: 500_000 },
            Cell { elevation: 500_000, moisture: 500_000 },
        ]
    );
}

#[test]
fn test_reduce_all_finds_extremes() {
    let map = Grid::return_single(0i64, 3, 3);
    let map = map.and_then_with_coordinates(|_, x, y| (y * 3 + x) as i64 - 4);

    let (min, max) = map.reduce_all((i64::MAX, i64::MIN), |(min, max), v| {
        (if v < min { v } else { min }, if v > max { v } else { max })
    });
    assert_eq!(min, -4);
    assert_eq!(max, 4);
}
