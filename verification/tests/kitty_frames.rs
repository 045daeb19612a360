use artfetch::kitty::{kitty_clear, kitty_frames, kitty_image, BOLD, CHUNK, RST};

#[test]
fn clear_command() {
    assert_eq!(kitty_clear(), "\x1b_Ga=d;\x1b\\");
    assert_eq!(RST, "\x1b[0m");
    assert_eq!(BOLD, "\x1b[1m");
}

#[test]
fn small_image_is_one_command() {
    assert_eq!(kitty_image(b"hello"), "\x1b_Gf=100,a=T,m=0;aGVsbG8=\x1b\\\n");
    assert_eq!(kitty_image(b""), "\n");
}

#[test]
fn exact_chunk_is_one_command() {
    let b64 = "A".repeat(CHUNK);
    let out = kitty_frames(&b64);
    assert_eq!(out, format!("\x1b_Gf=100,a=T,m=0;{}\x1b\\\n", b64));
}

#[test]
fn long_text_is_split_in_chunks() {
    let b64 = format!("{}{}{}", "A".repeat(4096), "B".repeat(4096), "CDEF");
    let out = kitty_frames(&b64);
    let expected = format!(
        "\x1b_Gf=100,a=T,m=1;{}\x1b\\\x1b_Gm=1;{}\x1b\\\x1b_Gm=0;CDEF\x1b\\\n",
        "A".repeat(4096),
        "B".repeat(4096)
    );
    assert_eq!(out, expected);
}

#[test]
fn image_bytes_are_base64_encoded() {
    let data: Vec<u8> = (0..3075u32).map(|i| (i % 251) as u8).collect();
    let out = kitty_image(&data);
    assert!(out.starts_with("\x1b_Gf=100,a=T,m=1;AAECAwQF"));
    assert!(out.contains("\x1b\\\x1b_Gm=0;"));
    assert!(out.ends_with("\x1b\\\n"));
    assert_eq!(out.len(), 4100 + 2 * 2 + "\x1b_Gf=100,a=T,m=1;".len() + "\x1b_Gm=0;".len() + 1);
}
