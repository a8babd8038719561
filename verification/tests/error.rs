use brumous::error::push_decimal;
use brumous::error::BrumousError;
use brumous::texture::TextureData;
use std::io;

const MARGIN: &str = "\n                    \r";

#[test]
fn the_margin_is_a_break_and_twenty_blanks() {
    assert_eq!(MARGIN.len(), 22);
    assert!(MARGIN.starts_with('\n'));
    assert!(MARGIN.ends_with('\r'));
    assert_eq!(MARGIN.trim_matches(|c| c == '\n' || c == '\r'), " ".repeat(20));
}

#[test]
fn numbers_are_written_in_decimal() {
    for n in [0u64, 1, 9, 10, 11, 99, 100, 101, 12345, 1_000_000, u64::MAX - 1, u64::MAX] {
        let mut text = String::from("n=");
        push_decimal(&mut text, n);
        assert_eq!(text, format!("n={}", n));
    }
}

#[test]
fn the_messages_of_the_lines_at_fault() {
    assert_eq!(
        BrumousError::ParseInt("a.obj".to_string(), 12).message(),
        format!("{}Error parsing int on line 12 of file a.obj", MARGIN)
    );
    assert_eq!(
        BrumousError::ParseFloat("dir/b.obj".to_string(), 1).message(),
        format!("{}Error parsing float on line 1 of file dir/b.obj", MARGIN)
    );
    assert_eq!(
        BrumousError::InvalidVertexData(String::new(), 0).message(),
        format!("{}Invalid vertex data: line 0 of file ", MARGIN)
    );
    assert_eq!(
        BrumousError::ParseInt("z".to_string(), usize::MAX).message(),
        format!("{}Error parsing int on line {} of file z", MARGIN, usize::MAX)
    );
}

#[test]
fn the_message_of_a_light_that_is_not_there() {
    assert_eq!(
        BrumousError::InvalidLightIndex(8, 8).message(),
        format!("{}Invalid light index 8 of 8 lights", MARGIN)
    );
}

#[test]
fn the_messages_end_in_the_text_of_the_error_they_wrap() {
    let missing = || io::Error::new(io::ErrorKind::NotFound, "no such file");
    assert_eq!(BrumousError::FileError(missing()).message(), format!("{}{}", MARGIN, missing()));
    assert_eq!(
        BrumousError::OpenTexture("image/metal.jpg".to_string(), missing()).message(),
        format!("{}Error opening file image/metal.jpg:{}{}", MARGIN, MARGIN, missing())
    );
    match TextureData::load("noise.png", Ok(vec![9, 9, 9])) {
        Err(BrumousError::LoadTexture(path, err)) => {
            let expected = format!("{}Error loading texture noise.png:{}{}", MARGIN, MARGIN, err);
            assert_eq!(BrumousError::LoadTexture(path, err).message(), expected);
        }
        _ => panic!("an error of loading is due"),
    }
}
