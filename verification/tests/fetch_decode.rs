use std::io::Write;

use cdx_pipeline::fetch::{
    check_status, decode_body, decode_response, lines_from_utf8, DecodeError, DownloadError,
    FetchError, HTTP_OK,
};

fn gzip(content: &[u8]) -> Vec<u8> {
    let mut encoder = flate2::write::GzEncoder::new(Vec::new(), flate2::Compression::default());
    encoder.write_all(content).unwrap();
    encoder.finish().unwrap()
}

#[test]
fn only_200_is_accepted() {
    assert_eq!(HTTP_OK, 200);
    assert_eq!(check_status(200), Ok(()));
    for status in [0u16, 100, 199, 201, 204, 206, 301, 304, 404, 500, 503, u16::MAX] {
        assert_eq!(check_status(status), Err(FetchError { status }));
    }
}

#[test]
fn decodes_a_gzip_body_into_lines() {
    let body = gzip(b"crawl-data/a/cdx-00000.gz\ncrawl-data/a/cdx-00001.gz\n");
    assert_eq!(
        decode_body(&body),
        Ok(vec![
            "crawl-data/a/cdx-00000.gz".to_string(),
            "crawl-data/a/cdx-00001.gz".to_string(),
        ])
    );
    assert_eq!(decode_response(200, &body), decode_body(&body).map_err(DownloadError::Decode));
}

#[test]
fn body_that_differs_from_its_content_is_decompressed() {
    let content = b"first\nsecond";
    let body = gzip(content);
    assert_ne!(body.as_slice(), content.as_slice());
    assert_eq!(
        decode_body(&body),
        Ok(vec!["first".to_string(), "second".to_string()])
    );
}

#[test]
fn empty_content_has_no_lines() {
    assert_eq!(decode_body(&gzip(b"")), Ok(Vec::new()));
}

#[test]
fn text_of_several_bytes_per_character_survives() {
    let body = gzip("é ☃\r\n🎉\n".as_bytes());
    assert_eq!(
        decode_body(&body),
        Ok(vec!["é ☃".to_string(), "🎉".to_string()])
    );
}

#[test]
fn body_that_is_not_gzip_is_refused() {
    assert_eq!(decode_body(b""), Err(DecodeError::Gzip));
    assert_eq!(decode_body(b"plain text\n"), Err(DecodeError::Gzip));
    assert_eq!(
        decode_response(200, b"plain text\n"),
        Err(DownloadError::Decode(DecodeError::Gzip))
    );
}

#[test]
fn truncated_or_damaged_gzip_is_refused() {
    let body = gzip(b"some content that is long enough to be cut in the middle\n");
    assert_eq!(decode_body(&body[..body.len() - 5]), Err(DecodeError::Gzip));
    assert_eq!(decode_body(&body[..12]), Err(DecodeError::Gzip));
    let mut damaged = body.clone();
    let at = damaged.len() - 6;
    damaged[at] ^= 0xff;
    assert_eq!(decode_body(&damaged), Err(DecodeError::Gzip));
}

#[test]
fn only_the_first_gzip_member_is_read() {
    let mut body = gzip(b"first\n");
    body.extend_from_slice(&gzip(b"second\n"));
    assert_eq!(decode_body(&body), Ok(vec!["first".to_string()]));
}

#[test]
fn content_that_is_not_utf8_is_refused() {
    assert_eq!(decode_body(&gzip(&[0x66, 0xff, 0x0a])), Err(DecodeError::Utf8));
    assert_eq!(decode_body(&gzip(&[0xc0, 0x80])), Err(DecodeError::Utf8));
    assert_eq!(decode_body(&gzip(&[0xed, 0xa0, 0x80])), Err(DecodeError::Utf8));
    assert_eq!(decode_body(&gzip(&[0xe2, 0x98])), Err(DecodeError::Utf8));
    assert_eq!(
        decode_response(200, &gzip(&[0xff])),
        Err(DownloadError::Decode(DecodeError::Utf8))
    );
}

#[test]
fn decompressed_bytes_become_lines() {
    assert_eq!(
        lines_from_utf8(b"a\nb\r\nc".to_vec()),
        Ok(vec!["a".to_string(), "b".to_string(), "c".to_string()])
    );
    assert_eq!(lines_from_utf8(Vec::new()), Ok(Vec::new()));
    assert_eq!(lines_from_utf8(vec![0x80]), Err(DecodeError::Utf8));
    assert_eq!(lines_from_utf8(vec![0xf4, 0x90, 0x80, 0x80]), Err(DecodeError::Utf8));
    assert_eq!(
        lines_from_utf8("日本語\n".as_bytes().to_vec()),
        Ok(vec!["日本語".to_string()])
    );
}

#[test]
fn response_under_another_status_is_refused_whatever_its_body() {
    let good = gzip(b"a\nb\n");
    let bodies: [&[u8]; 4] = [&good, b"", b"<html>not found</html>", &[0x1f, 0x8b, 0x08]];
    for status in [404u16, 500, 301, 204, 0] {
        for body in bodies {
            assert_eq!(
                decode_response(status, body),
                Err(DownloadError::Fetch(FetchError { status }))
            );
        }
    }
}

#[test]
fn download_errors_tell_themselves() {
    assert_eq!(
        DownloadError::Fetch(FetchError { status: 404 }).message(),
        "Failed to fetch the index file"
    );
    assert_eq!(
        DownloadError::Decode(DecodeError::Gzip).message(),
        "Failed to decompress the response body"
    );
    assert_eq!(
        DownloadError::Decode(DecodeError::Utf8).message(),
        "The decompressed body is not UTF-8 text"
    );
}
