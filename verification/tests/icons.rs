use chat_label_printer::canvas::{Canvas, BLANK, INK};
use chat_label_printer::icons::{
    find_icon, index_icons, load_icons, place_item, strip_image_suffix, EfficientEntry, Placed,
};
use chat_label_printer::placement::{CanvasLimits, Data};
use chat_label_printer::stamp::{draw_image, RenderError, Stamp};
use chat_label_printer::webp::{archive_image, to_luminance, DecodedImage};

fn entry(path: &str, bytes: &[u8]) -> EfficientEntry {
    EfficientEntry { path: path.to_string(), bytes: bytes.to_vec() }
}

fn library() -> Vec<EfficientEntry> {
    vec![
        entry("mdi:home", &[1]),
        entry("tabler:home", &[2]),
        entry("mdi:account", &[3]),
        entry("plain", &[4]),
        entry("a:b:c", &[5]),
    ]
}

fn found(name: &str) -> Option<Vec<u8>> {
    let icons = library();
    find_icon(&icons, name).map(|entry| entry.bytes.clone())
}

#[test]
fn icons_are_found_by_full_or_short_name() {
    assert_eq!(found("mdi:home"), Some(vec![1]));
    assert_eq!(found("tabler:home"), Some(vec![2]));
    assert_eq!(found("home"), Some(vec![1]));
    assert_eq!(found("account"), Some(vec![3]));
    assert_eq!(found("plain"), Some(vec![4]));
    assert_eq!(found("c"), Some(vec![5]));
    assert_eq!(found("a:b:c"), Some(vec![5]));
    assert_eq!(found("b:c"), None);
    assert_eq!(found("mdi"), None);
    assert_eq!(found("mdi:"), None);
    assert_eq!(found(""), None);
    assert_eq!(found("hello world"), None);
    assert!(find_icon(&vec![], "home").is_none());
}

#[test]
fn image_suffix_is_taken_out_everywhere() {
    assert_eq!(strip_image_suffix("mdi:home.webp"), "mdi:home");
    assert_eq!(strip_image_suffix("a.webp.webp"), "a");
    assert_eq!(strip_image_suffix(".webpx.webp"), "x");
    assert_eq!(strip_image_suffix("no suffix"), "no suffix");
    assert_eq!(strip_image_suffix(".web"), ".web");
    assert_eq!(strip_image_suffix(".we.webpbp"), ".webp");
    assert_eq!(strip_image_suffix(""), "");
}

#[test]
fn entries_are_indexed_under_their_names() {
    let icons = index_icons(vec![entry("mdi:home.webp", &[1, 2]), entry("x", &[])]);
    assert_eq!(icons.len(), 2);
    assert_eq!((icons[0].path.as_str(), icons[0].bytes.clone()), ("mdi:home", vec![1, 2]));
    assert_eq!((icons[1].path.as_str(), icons[1].bytes.clone()), ("x", vec![]));
}

fn archive(files: &[(&str, &[u8])]) -> Vec<u8> {
    let mut builder = tar_wasi::Builder::new(Vec::new());
    for (name, bytes) in files {
        let mut header = tar_wasi::Header::new_gnu();
        header.set_size(bytes.len() as u64);
        header.set_mode(0o644);
        header.set_cksum();
        builder.append_data(&mut header, name, *bytes).unwrap();
    }
    builder.into_inner().unwrap()
}

#[test]
fn icons_are_read_from_a_tar_archive() {
    let bytes = archive(&[("mdi:home.webp", &[9, 8, 7]), ("tabler:star.webp", &[])]);
    let icons = load_icons(&bytes);
    assert_eq!(icons.len(), 2);
    assert_eq!((icons[0].path.as_str(), icons[0].bytes.clone()), ("mdi:home", vec![9, 8, 7]));
    assert_eq!((icons[1].path.as_str(), icons[1].bytes.clone()), ("tabler:star", vec![]));
    assert!(load_icons(&[]).is_empty());
    assert!(load_icons(&[1, 2, 3]).is_empty());
}

fn rgba(width: u32, height: u32, alphas: &[u8]) -> DecodedImage {
    let mut data = Vec::new();
    for &alpha in alphas {
        data.extend([0, 0, 0, alpha]);
    }
    DecodedImage { width, height, has_alpha: true, data }
}

fn stamp(size: u32, posx: u32, posy: u32, canvas_width: u32, canvas_height: u32) -> Stamp {
    Stamp { size, posx, posy, canvas_width, canvas_height }
}

fn inked(canvas: &Canvas) -> Vec<usize> {
    canvas.pixels().iter().enumerate().filter(|(_, &pixel)| pixel == INK).map(|(i, _)| i).collect()
}

#[test]
fn pixels_with_low_alpha_become_squares_of_ink() {
    let image = rgba(2, 2, &[0, 255, 129, 128]);
    let mut canvas = Canvas::new(8, 8).unwrap();
    assert_eq!(draw_image(&mut canvas, &image, &stamp(2, 1, 1, 8, 8)), Ok(()));
    assert_eq!(inked(&canvas), vec![9, 10, 17, 18, 27, 28, 35, 36]);
    assert!(canvas.pixels().iter().all(|&pixel| pixel == INK || pixel == BLANK));
}

#[test]
fn drawing_is_clipped_before_it_is_moved() {
    let image = rgba(2, 1, &[0, 0]);
    let mut canvas = Canvas::new(4, 4).unwrap();
    assert_eq!(draw_image(&mut canvas, &image, &stamp(3, 2, 0, 4, 4)), Ok(()));
    assert_eq!(inked(&canvas), vec![2, 3, 4, 5, 6, 7, 8, 9, 10, 11, 12, 13]);
}

#[test]
fn rows_below_the_canvas_height_are_left_out() {
    let image = rgba(1, 2, &[0, 0]);
    let mut canvas = Canvas::new(4, 4).unwrap();
    assert_eq!(draw_image(&mut canvas, &image, &stamp(2, 0, 0, 4, 3)), Ok(()));
    assert_eq!(inked(&canvas), vec![0, 1, 4, 5, 8, 9]);
}

#[test]
fn positions_behind_the_canvas_are_left_out() {
    let image = rgba(1, 1, &[0]);
    let mut canvas = Canvas::new(2, 2).unwrap();
    assert_eq!(draw_image(&mut canvas, &image, &stamp(2, 1, 1, 2, 2)), Ok(()));
    assert_eq!(inked(&canvas), vec![3]);
    let mut canvas = Canvas::new(2, 2).unwrap();
    assert_eq!(draw_image(&mut canvas, &image, &stamp(1, u32::MAX, u32::MAX, u32::MAX, u32::MAX)), Ok(()));
    assert!(canvas.is_blank());
    let mut canvas = Canvas::new(2, 2).unwrap();
    assert_eq!(draw_image(&mut canvas, &image, &stamp(0, 0, 0, 2, 2)), Ok(()));
    assert!(canvas.is_blank());
}

#[test]
fn images_that_cannot_be_drawn() {
    let mut canvas = Canvas::new(2, 2).unwrap();
    let no_alpha = DecodedImage { width: 1, height: 1, has_alpha: false, data: vec![0, 0, 0] };
    assert_eq!(draw_image(&mut canvas, &no_alpha, &stamp(1, 0, 0, 2, 2)), Err(RenderError::NoAlpha));
    let short = DecodedImage { width: 2, height: 1, has_alpha: true, data: vec![0, 0, 0, 0] };
    assert_eq!(draw_image(&mut canvas, &short, &stamp(1, 0, 0, 2, 2)), Err(RenderError::Incomplete));
    assert!(canvas.is_blank());
    assert_eq!(RenderError::NotAnImage.message(), "Icon is not a WebP image");
}

fn webp_rgba(width: u32, height: u32, alphas: &[u8]) -> Vec<u8> {
    let mut file = Vec::new();
    image_webp::WebPEncoder::new(&mut file)
        .encode(&rgba(width, height, alphas).data, width, height, image_webp::ColorType::Rgba8)
        .unwrap();
    file
}

fn limits() -> CanvasLimits {
    CanvasLimits { width: 6, height: 6, max_size: 100 }
}

#[test]
fn placement_of_an_icon_draws_it() {
    let icons = vec![entry("mdi:dot", &webp_rgba(2, 1, &[0, 255])), entry("mdi:junk", &[1, 2, 3])];
    let mut canvas = Canvas::new(6, 6).unwrap();
    let data = Data { text: "dot".to_string(), x: 1, y: 2, size: 2 };
    assert_eq!(place_item(&mut canvas, &data, &icons, &limits()), Placed::Icon);
    assert_eq!(inked(&canvas), vec![13, 14, 19, 20]);
}

#[test]
fn placement_of_a_text_or_a_broken_icon_leaves_the_canvas_alone() {
    let icons = vec![entry("mdi:dot", &webp_rgba(2, 1, &[0, 255])), entry("mdi:junk", &[1, 2, 3])];
    let mut canvas = Canvas::new(6, 6).unwrap();
    let text = Data { text: "hello".to_string(), x: 1, y: 2, size: 2 };
    assert_eq!(place_item(&mut canvas, &text, &icons, &limits()), Placed::Text);
    let junk = Data { text: "mdi:junk".to_string(), x: 1, y: 2, size: 2 };
    assert_eq!(place_item(&mut canvas, &junk, &icons, &limits()), Placed::Failed(RenderError::NotAnImage));
    assert!(canvas.is_blank());
}

#[test]
fn icon_without_alpha_channel_is_not_drawn() {
    let mut file = Vec::new();
    image_webp::WebPEncoder::new(&mut file)
        .encode(&[0, 0, 0], 1, 1, image_webp::ColorType::Rgb8)
        .unwrap();
    let icons = vec![entry("mdi:opaque", &file)];
    let mut canvas = Canvas::new(6, 6).unwrap();
    let data = Data { text: "opaque".to_string(), x: 0, y: 0, size: 1 };
    assert_eq!(place_item(&mut canvas, &data, &icons, &limits()), Placed::Failed(RenderError::NoAlpha));
    assert!(canvas.is_blank());
}

#[test]
fn archive_is_a_greyscale_webp_of_the_canvas() {
    let pixels = [BLANK, INK, 0x1234_5678, BLANK, BLANK, INK];
    assert_eq!(to_luminance(&pixels), vec![255, 0, 0, 255, 255, 0]);
    let file = archive_image(&pixels, 3, 2).unwrap();
    let mut decoder = image_webp::WebPDecoder::new(std::io::Cursor::new(file)).unwrap();
    assert_eq!(decoder.dimensions(), (3, 2));
    let mut data = vec![0; decoder.output_buffer_size().unwrap()];
    decoder.read_image(&mut data).unwrap();
    let step = data.len() / 6;
    let luma: Vec<u8> = data.chunks(step).map(|pixel| pixel[0]).collect();
    assert_eq!(luma, vec![255, 0, 0, 255, 255, 0]);
}

#[test]
fn canvas_of_the_default_measures_is_archived() {
    let file = archive_image(&vec![BLANK; 500 * 500], 500, 500).unwrap();
    let decoder = image_webp::WebPDecoder::new(std::io::Cursor::new(file)).unwrap();
    assert_eq!(decoder.dimensions(), (500, 500));
}

#[test]
fn archive_takes_measures_from_one_to_16384() {
    assert!(archive_image(&[BLANK; 1], 1, 1).is_some());
    assert!(archive_image(&vec![BLANK; 16384], 16384, 1).is_some());
    assert!(archive_image(&vec![BLANK; 16384], 1, 16384).is_some());
    assert!(archive_image(&vec![BLANK; 16385], 16385, 1).is_none());
    assert!(archive_image(&vec![BLANK; 16385], 1, 16385).is_none());
}

#[test]
fn archive_needs_fitting_measures() {
    assert!(archive_image(&[BLANK; 6], 3, 3).is_none());
    assert!(archive_image(&[BLANK; 6], 2, 2).is_none());
    assert!(archive_image(&[], 0, 0).is_none());
    assert!(archive_image(&[], 0, 5).is_none());
    assert!(archive_image(&[BLANK; 6], 6, 1).is_some());
}
