use anodium::framework::cursor::{
    frame, frame_position, nearest_images, parse_cursor_file, parse_u32, theme_name, Cursor,
    CursorImage, CursorLoadError,
};

fn le(v: u32) -> [u8; 4] {
    v.to_le_bytes()
}

/// An XCursor file with one image per entry of `images` (nominal size, width, height, delay),
/// each pixel's bytes being 1, 2, 3, 4.
fn xcursor_file(images: &[(u32, u32, u32, u32)]) -> Vec<u8> {
    let mut f = Vec::new();
    f.extend_from_slice(b"Xcur");
    f.extend_from_slice(&le(16));
    f.extend_from_slice(&le(0x10000));
    f.extend_from_slice(&le(images.len() as u32));
    let mut pos = 16 + 12 * images.len() as u32;
    for (size, w, h, _) in images {
        f.extend_from_slice(&le(0xfffd_0002));
        f.extend_from_slice(&le(*size));
        f.extend_from_slice(&le(pos));
        pos += 36 + 4 * w * h;
    }
    for (size, w, h, delay) in images {
        f.extend_from_slice(&le(36));
        f.extend_from_slice(&le(0xfffd_0002));
        f.extend_from_slice(&le(*size));
        f.extend_from_slice(&le(1));
        f.extend_from_slice(&le(*w));
        f.extend_from_slice(&le(*h));
        f.extend_from_slice(&le(0));
        f.extend_from_slice(&le(0));
        f.extend_from_slice(&le(*delay));
        for _ in 0..(w * h) {
            f.extend_from_slice(&[1, 2, 3, 4]);
        }
    }
    f
}

fn image(size: u32, width: u32, height: u32, delay: u32) -> CursorImage {
    CursorImage {
        size,
        width,
        height,
        xhot: 0,
        yhot: 0,
        delay,
        pixels_rgba: Vec::new(),
        pixels_argb: Vec::new(),
    }
}

#[test]
fn an_xcursor_file_is_read_image_by_image() {
    let data = xcursor_file(&[(24, 2, 1, 50), (32, 1, 1, 70)]);
    let images = parse_cursor_file(&data).unwrap();
    assert_eq!(images.len(), 2);
    assert_eq!(images[0].size, 24);
    assert_eq!(images[0].width, 2);
    assert_eq!(images[0].height, 1);
    assert_eq!(images[0].delay, 50);
    assert_eq!(images[0].pixels_rgba, vec![1, 2, 3, 4, 1, 2, 3, 4]);
    assert_eq!(images[0].pixels_argb, vec![4, 1, 2, 3, 4, 1, 2, 3]);
    assert_eq!(images[1].size, 32);
    assert_eq!(images[1].delay, 70);
}

#[test]
fn bytes_that_are_no_xcursor_file_are_a_parse_error() {
    assert_eq!(parse_cursor_file(b"not a cursor").unwrap_err(), CursorLoadError::Parse);
    let mut data = xcursor_file(&[(24, 1, 1, 50)]);
    data.truncate(data.len() - 1);
    assert_eq!(parse_cursor_file(&data).unwrap_err(), CursorLoadError::Parse);
}

#[test]
fn the_images_of_the_nearest_size_are_chosen() {
    let images = vec![
        image(16, 16, 16, 10),
        image(24, 24, 24, 10),
        image(32, 32, 32, 10),
        image(24, 24, 24, 20),
        image(22, 24, 24, 30),
    ];
    assert_eq!(nearest_images(25, &images), vec![1, 3, 4]);
    assert_eq!(nearest_images(100, &images), vec![2]);
    assert_eq!(nearest_images(0, &images), vec![0]);
    // A tie goes to the first image of minimal distance.
    assert_eq!(nearest_images(28, &images), vec![1, 3, 4]);
}

#[test]
fn the_frame_follows_the_delays_and_repeats() {
    let images = vec![image(24, 24, 24, 10), image(24, 24, 24, 20), image(48, 48, 48, 5)];
    assert_eq!(frame_position(0, 24, &images), 0);
    assert_eq!(frame_position(9, 24, &images), 0);
    assert_eq!(frame_position(10, 24, &images), 1);
    assert_eq!(frame_position(29, 24, &images), 1);
    assert_eq!(frame_position(30, 24, &images), 0);
    assert_eq!(frame_position(30 * 1000 + 15, 24, &images), 1);
    assert_eq!(frame_position(7, 40, &images), 2);
    assert_eq!(frame(15, 24, &images).delay, 20);
    assert_eq!(frame(7, 40, &images).size, 48);
}

#[test]
fn the_cursor_image_is_chosen_for_the_scaled_size() {
    let c = Cursor::new(vec![image(24, 24, 24, 1), image(48, 48, 48, 1)], 24);
    assert_eq!(c.get_image(1, 0).size, 24);
    assert_eq!(c.get_image(2, 0).size, 48);
}

#[test]
fn a_cursor_falls_back_to_the_built_in_image() {
    let c = Cursor::load(Err(CursorLoadError::NoDefaultCursor), None, vec![9; 16]);
    assert_eq!(c.size, 24);
    assert_eq!(c.icons.len(), 1);
    let i = &c.icons[0];
    assert_eq!((i.size, i.width, i.height, i.xhot, i.yhot, i.delay), (32, 64, 64, 1, 1, 1));
    assert_eq!(i.pixels_rgba, vec![9; 16]);
    assert!(i.pixels_argb.is_empty());
}

#[test]
fn a_cursor_takes_the_theme_images_and_the_requested_size() {
    let c = Cursor::load(Ok(vec![image(32, 32, 32, 1)]), Some("48"), Vec::new());
    assert_eq!(c.size, 48);
    assert_eq!(c.icons.len(), 1);
    assert_eq!(c.icons[0].size, 32);
    let d = Cursor::load(Ok(vec![image(32, 32, 32, 1)]), Some("big"), Vec::new());
    assert_eq!(d.size, 24);
}

#[test]
fn sizes_are_read_as_str_parse_reads_them() {
    for s in ["0", "24", "+7", "007", "4294967295", "", "+", "-1", "4294967296", "1 ", " 1", "1a", "٣"] {
        assert_eq!(parse_u32(s), s.parse::<u32>().ok(), "{:?}", s);
    }
}

#[test]
fn the_theme_is_the_requested_one_or_default() {
    assert_eq!(theme_name(None), "default");
    assert_eq!(theme_name(Some("Adwaita".to_string())), "Adwaita");
}
