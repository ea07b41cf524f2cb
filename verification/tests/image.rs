use ficture::cell::Cell;
use ficture::color::{GetColor, Rgb8};
use ficture::grid::Grid;
use ficture::img::pixel_map_to_image;

#[test]
fn test_image_matches_map_dimensions() {
    let width = 1920;
    let height = 1080;
    let map = Grid::return_single(Cell { elevation: 0, moisture: 0 }, width, height);
    let map = map.and_then(|cell| cell.get_color());
    let image = map.extract(pixel_map_to_image);

    assert_eq!(image.inner.width(), width as u32);
    assert_eq!(image.inner.height(), height as u32);
}

#[test]
fn test_image_pixels_are_row_major() {
    let pixels = vec![
        Rgb8 { r: 1, g: 2, b: 3 },
        Rgb8 { r: 4, g: 5, b: 6 },
        Rgb8 { r: 7, g: 8, b: 9 },
        Rgb8 { r: 10, g: 11, b: 12 },
    ];
    let image = pixel_map_to_image(pixels, 2, 2);

    assert_eq!(*image.inner.get_pixel(0, 0), image::Rgb([1, 2, 3]));
    assert_eq!(*image.inner.get_pixel(1, 0), image::Rgb([4, 5, 6]));
    assert_eq!(*image.inner.get_pixel(0, 1), image::Rgb([7, 8, 9]));
    assert_eq!(*image.inner.get_pixel(1, 1), image::Rgb([10, 11, 12]));
}
