use lamco_rdp_server::server::cursor_pdu::{
    encode_color_pointer, parse_xcursor, pointer_candidates, to_rdp, CursorError, PointerFile,
    PointerSearch, CHUNK_IMAGE, MAGIC,
};

fn words(values: &[u32]) -> Vec<u8> {
    let mut v = Vec::new();
    for w in values {
        v.extend_from_slice(&w.to_le_bytes());
    }
    v
}

/// One image: header (16), table of contents (12), chunk header (36), pixels.
fn minimal_xcursor(w: u32, h: u32) -> Vec<u8> {
    let mut v = words(&[
        MAGIC,
        16,
        0x0001_0000,
        1,
        CHUNK_IMAGE,
        24,
        28,
        36,
        CHUNK_IMAGE,
        24,
        1,
        w,
        h,
        1,
        2,
        1,
    ]);
    v.extend_from_slice(&vec![0u8; (w * h * 4) as usize]);
    v
}

/// A file with one image per nominal size, each two by one pixels.
fn sized_xcursor(sizes: &[u32]) -> Vec<u8> {
    let n = sizes.len() as u32;
    let mut v = words(&[MAGIC, 16, 0x0001_0000, n]);
    for (i, s) in sizes.iter().enumerate() {
        let at = 16 + 12 * n + (36 + 8) * i as u32;
        v.extend_from_slice(&words(&[CHUNK_IMAGE, *s, at]));
    }
    for s in sizes {
        v.extend_from_slice(&words(&[36, CHUNK_IMAGE, *s, 1, 2, 1, 0, 0, 0]));
        v.extend_from_slice(&[*s as u8; 8]);
    }
    v
}

#[test]
fn parses_minimal_file() {
    let data = minimal_xcursor(4, 4);
    let img = parse_xcursor(&data).expect("parse");
    assert_eq!((img.width, img.height, img.xhot, img.yhot), (4, 4, 1, 2));
}

#[test]
fn rdp_masks_layout() {
    let data = minimal_xcursor(4, 4);
    let img = parse_xcursor(&data).expect("parse");
    let p = to_rdp(&img, 7);
    assert_eq!(p.cache_index, 7);
    assert_eq!(p.and_mask.len(), 2 * 4);
    assert_eq!(p.xor_mask.len(), 4 * 4 * 4);
    let enc = encode_color_pointer(&p);
    assert_eq!(enc.len(), 14 + p.xor_mask.len() + p.and_mask.len());
    let _ = &enc[14..14 + 4];
}

#[test]
fn transparent_pixels_get_and_bit() {
    let mut data = minimal_xcursor(2, 2);
    let px_off = 16 + 12 + 36;
    data[px_off..px_off + 4].copy_from_slice(&[255, 255, 255, 255]);
    let img = parse_xcursor(&data).expect("parse");
    let p = to_rdp(&img, 0);
    let top_row_bits = p.and_mask[(p.height as usize - 1) * 2] >> 6;
    assert_eq!(top_row_bits, 0b01);
}

#[test]
fn semi_transparent_pixels_are_drawn() {
    let mut data = minimal_xcursor(2, 2);
    let px_off = 16 + 12 + 36;
    data[px_off..px_off + 4].copy_from_slice(&[200, 100, 50, 10]);
    let img = parse_xcursor(&data).expect("parse");
    let p = to_rdp(&img, 0);
    let byte = p.and_mask[(p.height as usize - 1) * 2];
    assert_eq!(byte >> 7 & 1, 0, "a=10 pixel must be drawn, not punched");
    let xo = ((p.height as usize - 1) * 2) * 4 * 2;
    assert_eq!(&p.xor_mask[xo..xo + 3], &[50, 100, 200], "BGR color preserved");
    assert_eq!(byte >> 6 & 1, 1, "a=0 pixel stays transparent");
}

#[test]
fn wire_encode_matches_ironrdp_encoder() {
    let data = minimal_xcursor(6, 8);
    let img = parse_xcursor(&data).expect("parse");
    let p = to_rdp(&img, 3);
    let ours = encode_color_pointer(&p);
    let reference = ironrdp_core::encode_vec(&ironrdp_pdu::pointer::ColorPointerAttribute {
        cache_index: p.cache_index,
        hot_spot: ironrdp_pdu::pointer::Point16 {
            x: p.hot_spot.0,
            y: p.hot_spot.1,
        },
        width: p.width,
        height: p.height,
        xor_mask: &p.xor_mask,
        and_mask: &p.and_mask,
    })
    .expect("reference encode");
    assert_eq!(ours, reference);
}

#[test]
fn malformed_xcursor_is_error_not_panic() {
    assert!(parse_xcursor(&[]).is_err());
    assert!(parse_xcursor(&[0u8; 10]).is_err());
    let mut truncated = words(&[0x7275_6358, 16, 0x0001_0000, 5]);
    truncated.extend_from_slice(&[0u8; 8]);
    let result = parse_xcursor(&truncated);
    assert!(result.is_err(), "truncated file must be an error");
}

#[test]
fn cursor_errors_are_told_apart() {
    assert!(matches!(parse_xcursor(&[1u8; 20]), Err(CursorError::Malformed(_))));
    let empty = words(&[MAGIC, 16, 0x0001_0000, 0]);
    assert!(matches!(parse_xcursor(&empty), Err(CursorError::NoImage)));
    let mut cut = minimal_xcursor(4, 4);
    cut.truncate(cut.len() - 1);
    assert!(matches!(parse_xcursor(&cut), Err(CursorError::Malformed(_))));
    assert_eq!(
        CursorError::Io("gone".to_string()).to_string(),
        "cursor file_io: gone"
    );
}

#[test]
fn image_closest_to_nominal_size_is_taken() {
    let img = parse_xcursor(&sized_xcursor(&[48, 32, 16, 96])).expect("parse");
    assert_eq!(img.nominal, 32);
    let img = parse_xcursor(&sized_xcursor(&[12, 96, 24, 25])).expect("parse");
    assert_eq!(img.nominal, 24);
    assert_eq!(img.pixels, vec![24u8; 8]);
}

#[test]
fn pointer_search_takes_first_usable_file() {
    assert_eq!(
        pointer_candidates(None),
        vec![
            "/usr/share/icons/default/cursors/left_ptr",
            "/usr/share/icons/breeze_cursors/cursors/left_ptr",
            "/usr/share/icons/default/cursors/left_ptr",
            "/usr/share/icons/whiteglass/cursors/left_ptr",
        ]
    );
    let configured = pointer_candidates(Some("/a:/b"));
    assert_eq!(configured[0], "/a/default/cursors/left_ptr");
    assert_eq!(configured[1], "/b/default/cursors/left_ptr");
    assert_eq!(configured.len(), 5);
    let mut search = PointerSearch::new();
    assert!(search.look_at(PointerFile::Missing).is_none());
    assert!(matches!(search.last, CursorError::NoImage));
    assert!(search
        .look_at(PointerFile::Unreadable("denied".to_string()))
        .is_none());
    assert!(matches!(search.last, CursorError::Io(_)));
    assert!(search.look_at(PointerFile::Read(vec![0u8; 4])).is_none());
    assert!(matches!(search.last, CursorError::Malformed("file too small")));
    assert!(search.look_at(PointerFile::Read(vec![0u8; 16])).is_none());
    assert!(matches!(search.last, CursorError::Malformed("bad magic")));
    let found = search
        .look_at(PointerFile::Read(minimal_xcursor(2, 2)))
        .expect("found");
    assert_eq!((found.width, found.height), (2, 2));
    assert_eq!(found.hot_spot, (1, 2));
}

#[test]
fn colour_rows_are_four_bytes_per_pixel_except_rows_of_two() {
    let shape = |w, h| to_rdp(&parse_xcursor(&minimal_xcursor(w, h)).expect("parse"), 0);
    let wide = shape(6, 8);
    assert_eq!(wide.xor_mask.len(), 192);
    assert_eq!(wide.and_mask.len(), 16);
    assert_eq!(shape(1, 5).xor_mask.len(), 20);
    assert_eq!(shape(3, 5).xor_mask.len(), 60);
    assert_eq!(shape(2, 5).xor_mask.len(), 80);
}
