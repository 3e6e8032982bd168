use icecube::buffer::Buffer;
use icecube::element::Element;
use icecube::image::Image;
use icecube::layout::CalculatedLayout;
use icecube::palette::color_from_index;
use icecube::palette::MAIN_DARK;
use icecube::quad::Quad;
use icecube::slider::Slider;
use icecube::state_tree::State;

const RED: [u8; 4] = [200, 10, 10, 255];
const BLUE: [u8; 4] = [10, 10, 200, 255];

fn pixel(buffer: &Buffer, x: usize, y: usize) -> [u8; 4] {
    let i = (x + y * buffer.width) * 4;
    [buffer.data[i], buffer.data[i + 1], buffer.data[i + 2], buffer.data[i + 3]]
}

#[test]
fn set_pixel_writes_and_clips() {
    let mut buffer = Buffer { data: vec![0u8; 16], width: 4 };
    buffer.set_pixel(1, 0, RED);
    assert_eq!(pixel(&buffer, 1, 0), RED);
    // past the only row: dropped
    buffer.set_pixel(0, 1, RED);
    // past the row width: dropped
    buffer.set_pixel(5, 0, RED);
    assert_eq!(buffer.data[0..4], [0, 0, 0, 0]);
    assert_eq!(buffer.len(), 16);
    assert_eq!(&buffer.data[8..16], &[0u8; 8]);
}

#[test]
fn quad_draw_fills_and_borders() {
    let quad = Quad::new().fill(RED).border_color(BLUE).border_thickness(1);
    let mut buffer = Buffer { data: vec![0u8; 4 * 10 * 10], width: 10 };
    let region = CalculatedLayout { x: 2, y: 2, w: 4, h: 4 };
    <Quad as Element<()>>::draw(&quad, &mut buffer, region);
    // the ring is border-colored, the interior filled, the outside untouched
    assert_eq!(pixel(&buffer, 2, 2), BLUE);
    assert_eq!(pixel(&buffer, 5, 5), BLUE);
    assert_eq!(pixel(&buffer, 3, 3), RED);
    assert_eq!(pixel(&buffer, 4, 4), RED);
    assert_eq!(pixel(&buffer, 0, 0), [0, 0, 0, 0]);
    assert_eq!(pixel(&buffer, 6, 6), [0, 0, 0, 0]);
}

#[test]
fn quad_draw_clips_offscreen_regions() {
    let quad = Quad::new().fill(RED);
    let mut buffer = Buffer { data: vec![0u8; 4 * 4 * 4], width: 4 };
    let region = CalculatedLayout { x: 2, y: 2, w: 50, h: 50 };
    <Quad as Element<()>>::draw(&quad, &mut buffer, region);
    assert_eq!(pixel(&buffer, 3, 3), RED);
    assert_eq!(pixel(&buffer, 1, 1), [0, 0, 0, 0]);
    assert_eq!(buffer.len(), 4 * 4 * 4);
}

#[test]
fn slider_draw_splits_at_the_value() {
    let slider: Slider<()> = Slider::new(0, 10, 5).set_color(RED, BLUE);
    let mut buffer = Buffer { data: vec![0u8; 4 * 10 * 2], width: 10 };
    let region = CalculatedLayout { x: 0, y: 0, w: 10, h: 2 };
    slider.draw(&mut buffer, region);
    assert_eq!(pixel(&buffer, 0, 0), RED);
    assert_eq!(pixel(&buffer, 4, 1), RED);
    assert_eq!(pixel(&buffer, 5, 0), BLUE);
    assert_eq!(pixel(&buffer, 9, 1), BLUE);
}

#[test]
fn image_draw_scales_pixel_blocks() {
    let image = Image::new(vec![RED, BLUE], 2, 1).scale_factor(2);
    assert_eq!(<Image as Element<()>>::min_width(&image), 4);
    assert_eq!(<Image as Element<()>>::min_height(&image, 0), 2);
    let mut buffer = Buffer { data: vec![0u8; 4 * 8 * 4], width: 8 };
    let region = CalculatedLayout { x: 1, y: 1, w: 4, h: 2 };
    <Image as Element<()>>::draw(&image, &mut buffer, region);
    assert_eq!(pixel(&buffer, 1, 1), RED);
    assert_eq!(pixel(&buffer, 2, 2), RED);
    assert_eq!(pixel(&buffer, 3, 1), BLUE);
    assert_eq!(pixel(&buffer, 4, 2), BLUE);
    assert_eq!(pixel(&buffer, 0, 0), [0, 0, 0, 0]);
}

#[test]
fn palette_wraps_around() {
    assert_eq!(color_from_index(0), MAIN_DARK);
    assert_eq!(color_from_index(6), MAIN_DARK);
    assert_ne!(color_from_index(1), color_from_index(2));
}

#[test]
fn state_downcast_reaches_the_slider_slot() {
    let mut slot = State::new(icecube::slider::State { is_dragging: false });
    slot.downcast_mut().is_dragging = true;
    assert_eq!(slot, State::Slider(icecube::slider::State { is_dragging: true }));
}
