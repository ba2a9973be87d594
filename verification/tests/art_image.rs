use rustrays::art::{Art, ObjectPos};
use rustrays::image::Image;

#[test]
fn art_two_rows_parse_to_positions() {
    let art = Art::new(vec![b"* *".to_vec(), b"  *".to_vec()]);
    let objs = art.objects();
    assert_eq!(
        objs,
        vec![
            ObjectPos { x: 0, z: -3 },
            ObjectPos { x: 2, z: -3 },
            ObjectPos { x: 2, z: -2 },
        ]
    );
}

#[test]
fn art_empty_grid_has_no_objects() {
    let art = Art::new(Vec::new());
    assert_eq!(art.objects(), Vec::<ObjectPos>::new());
}

#[test]
fn art_blank_lines_have_no_objects() {
    let art = Art::new(vec![b"   ".to_vec(), b"".to_vec()]);
    assert_eq!(art.objects(), Vec::<ObjectPos>::new());
}

#[test]
fn art_trailing_line_endings_are_not_objects() {
    let art = Art::new(vec![b"*\r\n".to_vec()]);
    assert_eq!(art.objects(), vec![ObjectPos { x: 0, z: -2 }]);
}

#[test]
fn art_trailing_whitespace_trimmed_entirely() {
    let art = Art::new(vec![b" \t ".to_vec()]);
    assert_eq!(art.objects(), Vec::<ObjectPos>::new());
}

#[test]
fn art_new_trims_only_the_tail() {
    let art = Art::new(vec![b" * \r\n".to_vec(), b"**\t".to_vec()]);
    assert_eq!(art.0, vec![b" *".to_vec(), b"**".to_vec()]);
}

#[test]
fn art_interior_tab_counts_as_object() {
    // only a blank leaves a cell empty; an interior tab is a glyph
    let art = Art::new(vec![b"\t*".to_vec()]);
    assert_eq!(
        art.objects(),
        vec![ObjectPos { x: 0, z: -2 }, ObjectPos { x: 1, z: -2 }]
    );
}

#[test]
fn image_new_is_zeroed() {
    let img = Image::new(2);
    assert_eq!(img.size, 2);
    assert_eq!(img.data.len(), 12);
    assert!(img.data.iter().all(|&b| b == 0));
}

#[test]
fn image_pixel_offsets_flip_both_axes() {
    let img = Image::new(2);
    assert_eq!(img.pixel_offset(1, 1), 0);
    assert_eq!(img.pixel_offset(0, 1), 3);
    assert_eq!(img.pixel_offset(1, 0), 6);
    assert_eq!(img.pixel_offset(0, 0), 9);
}

#[test]
fn image_write_pixel_touches_only_its_bytes() {
    let mut img = Image::new(2);
    img.write_pixel(0, 0, 10, 20, 30);
    assert_eq!(&img.data[9..12], &[10, 20, 30]);
    assert!(img.data[..9].iter().all(|&b| b == 0));
    img.write_pixel(1, 1, 1, 2, 3);
    assert_eq!(&img.data[0..3], &[1, 2, 3]);
    assert_eq!(&img.data[9..12], &[10, 20, 30]);
}

#[test]
fn image_write_row_lands_flipped() {
    let mut img = Image::new(2);
    img.write_row(0, &vec![1, 2, 3, 4, 5, 6]);
    assert_eq!(&img.data[6..12], &[1, 2, 3, 4, 5, 6]);
    assert!(img.data[..6].iter().all(|&b| b == 0));
    img.write_row(1, &vec![7, 8, 9, 10, 11, 12]);
    assert_eq!(&img.data[0..6], &[7, 8, 9, 10, 11, 12]);
    assert_eq!(&img.data[6..12], &[1, 2, 3, 4, 5, 6]);
}

#[test]
fn ppm_bytes_header_and_payload() {
    let mut img = Image::new(2);
    for x in 0..2 {
        for y in 0..2 {
            let v = (3 * (x * 2 + y)) as u8;
            img.write_pixel(x, y, v, v + 1, v + 2);
        }
    }
    let out = img.ppm_bytes();
    assert_eq!(&out[..11], b"P6 2 2 255 ");
    assert_eq!(&out[11..], &img.data[..]);
}

#[test]
fn ppm_bytes_multi_digit_size() {
    let img = Image::new(12);
    let out = img.ppm_bytes();
    assert_eq!(&out[..13], b"P6 12 12 255 ");
    assert_eq!(out.len(), 13 + 3 * 12 * 12);
}

#[test]
fn ppm_bytes_twice_is_byte_identical() {
    let mut img = Image::new(3);
    img.write_pixel(0, 0, 255, 128, 7);
    img.write_pixel(2, 1, 9, 9, 9);
    let first = img.ppm_bytes();
    let second = img.ppm_bytes();
    assert_eq!(first, second);
}
