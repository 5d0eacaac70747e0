use raytracer::framebuffer::{Framebuffer, PixelColour};
use raytracer::schedule::worker_rows;

#[test]
fn new_framebuffer_is_black() {
    let fb = Framebuffer::new(4, 3);
    assert_eq!(fb.width(), 4);
    assert_eq!(fb.height(), 3);
    for y in 0..3 {
        for x in 0..4 {
            assert_eq!(fb.get_pixel(x, y), PixelColour::new(0, 0, 0));
        }
    }
}

#[test]
fn set_pixel_writes_one_pixel() {
    let mut fb = Framebuffer::new(4, 3);
    fb.set_pixel(3, 0, PixelColour::new(10, 20, 30));
    assert_eq!(fb.get_pixel(3, 0), PixelColour::new(10, 20, 30));
    assert_eq!(fb.get_pixel(0, 0), PixelColour::new(0, 0, 0));
    assert_eq!(fb.get_pixel(3, 1), PixelColour::new(0, 0, 0));
}

#[test]
fn image_keeps_top_left_origin() {
    let mut fb = Framebuffer::new(2, 2);
    fb.set_pixel(1, 0, PixelColour::new(255, 0, 0));
    let img = fb.into_image();
    assert_eq!(img.get_pixel(1, 0), bmp::Pixel::new(255, 0, 0));
    assert_eq!(img.get_pixel(1, 1), bmp::Pixel::new(0, 0, 0));
}

#[test]
fn pixel_colour_to_bmp() {
    let p = PixelColour::new(1, 2, 3).into_pixel();
    assert_eq!((p.r, p.g, p.b), (1, 2, 3));
}

fn code(x: u32, y: u32) -> PixelColour {
    PixelColour::new(x as u8, y as u8, (x * y) as u8)
}

#[test]
fn assembled_rows_land_in_place() {
    let (width, height, workers) = (5u32, 7u32, 3u32);
    let mut blocks = Vec::new();
    for w in 0..workers {
        let mut block = Vec::new();
        for y in worker_rows(height, workers, w) {
            for x in 0..width {
                block.push(code(x, y));
            }
        }
        blocks.push(block);
    }
    let fb = Framebuffer::assemble(width, height, workers, &blocks);
    for y in 0..height {
        for x in 0..width {
            assert_eq!(fb.get_pixel(x, y), code(x, y));
        }
    }
}

#[test]
fn assemble_with_idle_workers() {
    let blocks = vec![vec![PixelColour::new(9, 9, 9); 2], vec![], vec![], vec![]];
    let fb = Framebuffer::assemble(2, 1, 4, &blocks);
    assert_eq!(fb.get_pixel(0, 0), PixelColour::new(9, 9, 9));
    assert_eq!(fb.get_pixel(1, 0), PixelColour::new(9, 9, 9));
}
