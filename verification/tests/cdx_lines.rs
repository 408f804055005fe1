use cdx_pipeline::cdx::{
    english_entries, keep, metadata_from_members, parse_cdx_line, CdxEntry, CdxMetadata,
    MetadataField, ParseError,
};
use cdx_pipeline::json::JsonMember;

const SAMPLE: &str = r#"0,100,22,165)/ 20240722120756 {"url": "http://165.22.100.0/", "mime": "text/html", "mime-detected": "text/html", "status": "301", "digest": "DCNYNIFG5SBRCVS5PCUY4YY2UM2WAQ4R", "length": "689", "offset": "3499", "filename": "crawl-data/CC-MAIN-2024-30/segments/1720763517846.73/crawldiagnostics/CC-MAIN-20240722095039-20240722125039-00443.warc.gz", "redirect": "https://157.245.55.71/"}
0,100,22,165)/robots.txt 20240722120755 {"url": "http://165.22.100.0/robots.txt", "mime": "text/html", "mime-detected": "text/html", "status": "301", "digest": "LYEE2BXON4MCQCP5FDVDNILOWBKCZZ6G", "length": "700", "offset": "4656", "filename": "crawl-data/CC-MAIN-2024-30/segments/1720763517846.73/robotstxt/CC-MAIN-20240722095039-20240722125039-00410.warc.gz", "redirect": "https://157.245.55.71/robots.txt"}
0,100,59,139)/ 20240723213521 {"url": "https://139.59.100.0/", "mime": "text/html", "mime-detected": "text/html", "status": "200", "digest": "5JOQMMSNM6N7UCLGGYXDSPSB3FYAQS2C", "length": "16650", "offset": "64016172", "filename": "crawl-data/CC-MAIN-2024-30/segments/1720763518115.82/warc/CC-MAIN-20240723194208-20240723224208-00279.warc.gz", "charset": "UTF-8", "languages": "ind,eng"}"#;

fn text(s: &str) -> JsonMember {
    JsonMember::Text(s.to_string())
}

fn member(key: &str, value: JsonMember) -> (String, JsonMember) {
    (key.to_string(), value)
}

fn full_members() -> Vec<(String, JsonMember)> {
    vec![
        member("filename", text("f.warc.gz")),
        member("languages", text("deu,eng")),
        member("length", text("689")),
        member("offset", text("3499")),
        member("status", text("301")),
        member("url", text("http://example.org/")),
    ]
}

fn without(members: Vec<(String, JsonMember)>, key: &str) -> Vec<(String, JsonMember)> {
    members.into_iter().filter(|m| m.0 != key).collect()
}

fn replaced(
    members: Vec<(String, JsonMember)>,
    key: &str,
    value: JsonMember,
) -> Vec<(String, JsonMember)> {
    let mut out = without(members, key);
    out.push(member(key, value));
    out
}

fn entry_with_languages(languages: Option<&str>) -> CdxEntry {
    CdxEntry {
        surt_url: "org,example)/".to_string(),
        timestamp: "20240722120756".to_string(),
        metadata: CdxMetadata {
            url: "http://example.org/".to_string(),
            status: "200".to_string(),
            length: "1".to_string(),
            offset: "2".to_string(),
            filename: "f".to_string(),
            languages: languages.map(|l| l.to_string()),
        },
    }
}

#[test]
fn can_parse_cdx_file() {
    let content = SAMPLE;
    let cdx: Vec<_> = content
        .lines()
        .map(|line| parse_cdx_line(line).unwrap())
        .collect();
    assert_eq!(cdx.len(), 3);
}

#[test]
fn parsed_line_holds_the_three_parts() {
    let first = SAMPLE.lines().next().unwrap();
    let entry = parse_cdx_line(first).unwrap();
    assert_eq!(entry.surt_url, "0,100,22,165)/");
    assert_eq!(entry.timestamp, "20240722120756");
    assert_eq!(entry.metadata.url, "http://165.22.100.0/");
    assert_eq!(entry.metadata.status, "301");
    assert_eq!(entry.metadata.length, "689");
    assert_eq!(entry.metadata.offset, "3499");
    assert_eq!(
        entry.metadata.filename,
        "crawl-data/CC-MAIN-2024-30/segments/1720763517846.73/crawldiagnostics/CC-MAIN-20240722095039-20240722125039-00443.warc.gz"
    );
    assert_eq!(entry.metadata.languages, None);
}

#[test]
fn third_sample_line_declares_languages() {
    let third = SAMPLE.lines().nth(2).unwrap();
    let entry = parse_cdx_line(third).unwrap();
    assert_eq!(entry.surt_url, "0,100,59,139)/");
    assert_eq!(entry.timestamp, "20240723213521");
    assert_eq!(entry.metadata.languages, Some("ind,eng".to_string()));
}

#[test]
fn payload_keeps_its_spaces_and_escapes() {
    let line = r#"key 2024 {"url": "a b  c", "status": "x\ty", "length": "é", "offset": "\"", "filename": "f g"}"#;
    let entry = parse_cdx_line(line).unwrap();
    assert_eq!(entry.surt_url, "key");
    assert_eq!(entry.timestamp, "2024");
    assert_eq!(entry.metadata.url, "a b  c");
    assert_eq!(entry.metadata.status, "x\ty");
    assert_eq!(entry.metadata.length, "é");
    assert_eq!(entry.metadata.offset, "\"");
    assert_eq!(entry.metadata.filename, "f g");
}

#[test]
fn line_with_fewer_than_three_parts_is_refused() {
    assert_eq!(parse_cdx_line(""), Err(ParseError::MissingPart));
    assert_eq!(parse_cdx_line("onlykey"), Err(ParseError::MissingPart));
    assert_eq!(parse_cdx_line("key 20240722120756"), Err(ParseError::MissingPart));
    assert_eq!(parse_cdx_line("key\t20240722120756"), Err(ParseError::MissingPart));
    assert_eq!(parse_cdx_line(" "), Err(ParseError::MissingPart));
    assert_eq!(parse_cdx_line("key,2024,{}"), Err(ParseError::MissingPart));
}

#[test]
fn any_white_space_sets_the_parts_apart() {
    let payload = r#"{"url": "u", "status": "s", "length": "l", "offset": "o", "filename": "f"}"#;
    let spaced = parse_cdx_line(&format!("key 2024 {payload}")).unwrap();
    for (first, second) in [("\t", "\t"), (" ", "\t"), ("\u{a0}", " "), ("\u{3000}", "\u{2003}")] {
        let line = format!("key{first}2024{second}{payload}");
        assert_eq!(parse_cdx_line(&line), Ok(spaced.clone()));
    }
    assert_eq!(
        parse_cdx_line("key\t2024\t{}"),
        Err(ParseError::MissingField(MetadataField::Url))
    );
}

#[test]
fn payload_that_is_no_json_object_is_refused() {
    assert_eq!(parse_cdx_line("key 2024 not-json"), Err(ParseError::InvalidJson));
    assert_eq!(parse_cdx_line("key 2024 "), Err(ParseError::InvalidJson));
    assert_eq!(parse_cdx_line("key 2024 {\"url\": "), Err(ParseError::InvalidJson));
    assert_eq!(parse_cdx_line("key 2024 [\"a\"]"), Err(ParseError::InvalidJson));
    assert_eq!(parse_cdx_line("key 2024 \"text\""), Err(ParseError::InvalidJson));
    assert_eq!(parse_cdx_line("key 2024 null"), Err(ParseError::InvalidJson));
    assert_eq!(parse_cdx_line("key 2024 {} trailing"), Err(ParseError::InvalidJson));
}

#[test]
fn second_white_space_ends_the_timestamp() {
    // Two spaces in a row leave an empty timestamp and put the rest in the payload.
    assert_eq!(
        parse_cdx_line("key  2024 {}"),
        Err(ParseError::InvalidJson)
    );
    let line = r#"key  {"url": "u", "status": "s", "length": "l", "offset": "o", "filename": "f"}"#;
    let entry = parse_cdx_line(line).unwrap();
    assert_eq!(entry.surt_url, "key");
    assert_eq!(entry.timestamp, "");
}

#[test]
fn object_without_a_required_field_is_refused() {
    assert_eq!(
        parse_cdx_line("key 2024 {}"),
        Err(ParseError::MissingField(MetadataField::Url))
    );
    assert_eq!(
        parse_cdx_line(r#"key 2024 {"url": "u", "status": "s", "length": "l", "offset": "o"}"#),
        Err(ParseError::MissingField(MetadataField::Filename))
    );
}

#[test]
fn member_of_the_wrong_type_is_refused() {
    assert_eq!(
        parse_cdx_line(
            r#"key 2024 {"url": "u", "status": 301, "length": "l", "offset": "o", "filename": "f"}"#
        ),
        Err(ParseError::WrongType(MetadataField::Status))
    );
    assert_eq!(
        parse_cdx_line(
            r#"key 2024 {"url": null, "status": "s", "length": "l", "offset": "o", "filename": "f"}"#
        ),
        Err(ParseError::WrongType(MetadataField::Url))
    );
    assert_eq!(
        parse_cdx_line(
            r#"key 2024 {"url": "u", "status": "s", "length": "l", "offset": "o", "filename": "f", "languages": ["eng"]}"#
        ),
        Err(ParseError::WrongType(MetadataField::Languages))
    );
}

#[test]
fn null_languages_are_absent_languages() {
    let line = r#"key 2024 {"url": "u", "status": "s", "length": "l", "offset": "o", "filename": "f", "languages": null}"#;
    assert_eq!(parse_cdx_line(line).unwrap().metadata.languages, None);
}

#[test]
fn members_give_metadata_whatever_their_order() {
    let metadata = metadata_from_members(&full_members()).unwrap();
    assert_eq!(
        metadata,
        CdxMetadata {
            url: "http://example.org/".to_string(),
            status: "301".to_string(),
            length: "689".to_string(),
            offset: "3499".to_string(),
            filename: "f.warc.gz".to_string(),
            languages: Some("deu,eng".to_string()),
        }
    );
    let mut reversed = full_members();
    reversed.reverse();
    assert_eq!(metadata_from_members(&reversed).unwrap(), metadata);
}

#[test]
fn members_under_other_keys_are_passed_over() {
    let mut members = full_members();
    members.push(member("mime", text("text/html")));
    members.push(member("extra", JsonMember::Array));
    members.insert(0, member("digest", JsonMember::Number));
    assert_eq!(
        metadata_from_members(&members),
        metadata_from_members(&full_members())
    );
}

#[test]
fn each_required_field_is_missed() {
    let cases = [
        ("url", MetadataField::Url),
        ("status", MetadataField::Status),
        ("length", MetadataField::Length),
        ("offset", MetadataField::Offset),
        ("filename", MetadataField::Filename),
    ];
    for (key, field) in cases {
        assert_eq!(
            metadata_from_members(&without(full_members(), key)),
            Err(ParseError::MissingField(field))
        );
    }
    let no_languages = metadata_from_members(&without(full_members(), "languages")).unwrap();
    assert_eq!(no_languages.languages, None);
}

#[test]
fn each_field_must_be_a_string() {
    let cases = [
        ("url", MetadataField::Url),
        ("status", MetadataField::Status),
        ("length", MetadataField::Length),
        ("offset", MetadataField::Offset),
        ("filename", MetadataField::Filename),
        ("languages", MetadataField::Languages),
    ];
    for (key, field) in cases {
        for value in [
            JsonMember::Bool,
            JsonMember::Number,
            JsonMember::Array,
            JsonMember::Object,
        ] {
            assert_eq!(
                metadata_from_members(&replaced(full_members(), key, value)),
                Err(ParseError::WrongType(field))
            );
        }
    }
    assert_eq!(
        metadata_from_members(&replaced(full_members(), "offset", JsonMember::Null)),
        Err(ParseError::WrongType(MetadataField::Offset))
    );
    let null_languages =
        metadata_from_members(&replaced(full_members(), "languages", JsonMember::Null)).unwrap();
    assert_eq!(null_languages.languages, None);
}

#[test]
fn first_field_at_fault_is_named() {
    let members = replaced(
        without(full_members(), "status"),
        "length",
        JsonMember::Number,
    );
    assert_eq!(
        metadata_from_members(&members),
        Err(ParseError::MissingField(MetadataField::Status))
    );
    let members = replaced(
        without(full_members(), "offset"),
        "url",
        JsonMember::Bool,
    );
    assert_eq!(
        metadata_from_members(&members),
        Err(ParseError::WrongType(MetadataField::Url))
    );
}

#[test]
fn first_member_under_a_key_counts() {
    let mut members = full_members();
    members.push(member("url", text("later")));
    assert_eq!(
        metadata_from_members(&members).unwrap().url,
        "http://example.org/"
    );
}

#[test]
fn keep_wants_eng_among_the_languages() {
    assert!(keep(&entry_with_languages(Some("eng"))));
    assert!(keep(&entry_with_languages(Some("ind,eng"))));
    assert!(keep(&entry_with_languages(Some("eng,fra"))));
    assert!(keep(&entry_with_languages(Some("deu,eng,fra"))));
    assert!(!keep(&entry_with_languages(Some("deu,fra"))));
    assert!(!keep(&entry_with_languages(Some(""))));
    assert!(!keep(&entry_with_languages(Some("en"))));
    assert!(!keep(&entry_with_languages(Some("en,g"))));
    assert!(!keep(&entry_with_languages(Some("ENG"))));
    assert!(!keep(&entry_with_languages(None)));
}

#[test]
fn keep_takes_eng_inside_a_longer_code() {
    assert!(keep(&entry_with_languages(Some("engx"))));
    assert!(keep(&entry_with_languages(Some("deu,xeng"))));
    assert!(keep(&entry_with_languages(Some("beng"))));
}

#[test]
fn line_without_languages_is_parsed_and_filtered_out() {
    let first = SAMPLE.lines().next().unwrap();
    let entry = parse_cdx_line(first).unwrap();
    assert_eq!(entry.metadata.languages, None);
    assert!(!keep(&entry));
}

#[test]
fn sample_keeps_the_one_english_entry() {
    let lines: Vec<String> = SAMPLE.lines().map(|l| l.to_string()).collect();
    let kept = english_entries(&lines).unwrap();
    assert_eq!(kept.len(), 1);
    assert_eq!(kept[0].surt_url, "0,100,59,139)/");
    assert_eq!(kept[0].metadata.languages, Some("ind,eng".to_string()));
    let by_hand: Vec<CdxEntry> = lines
        .iter()
        .map(|l| parse_cdx_line(l).unwrap())
        .filter(|e| keep(e))
        .collect();
    assert_eq!(kept, by_hand);
}

#[test]
fn english_entries_keep_the_order_of_their_lines() {
    let line = |key: &str, languages: &str| {
        format!(
            r#"{key} 2024 {{"url": "u", "status": "s", "length": "l", "offset": "o", "filename": "f", "languages": "{languages}"}}"#
        )
    };
    let lines = vec![
        line("a", "eng"),
        line("b", "fra"),
        line("c", "deu,eng"),
        line("d", "eng,spa"),
        line("e", "zho"),
    ];
    let kept = english_entries(&lines).unwrap();
    let keys: Vec<&str> = kept.iter().map(|e| e.surt_url.as_str()).collect();
    assert_eq!(keys, vec!["a", "c", "d"]);
    assert_eq!(english_entries(&Vec::new()), Ok(Vec::new()));
}

#[test]
fn first_bad_line_ends_the_work() {
    let good = r#"a 2024 {"url": "u", "status": "s", "length": "l", "offset": "o", "filename": "f", "languages": "eng"}"#;
    let lines = vec![
        good.to_string(),
        "b 2024 {}".to_string(),
        "c".to_string(),
    ];
    assert_eq!(
        english_entries(&lines),
        Err(ParseError::MissingField(MetadataField::Url))
    );
    let lines = vec![good.to_string(), "c".to_string(), "b 2024 {}".to_string()];
    assert_eq!(english_entries(&lines), Err(ParseError::MissingPart));
}

#[test]
fn field_keys_are_the_json_names() {
    assert_eq!(MetadataField::Url.key(), "url");
    assert_eq!(MetadataField::Status.key(), "status");
    assert_eq!(MetadataField::Length.key(), "length");
    assert_eq!(MetadataField::Offset.key(), "offset");
    assert_eq!(MetadataField::Filename.key(), "filename");
    assert_eq!(MetadataField::Languages.key(), "languages");
}

#[test]
fn parse_errors_tell_themselves() {
    assert_eq!(ParseError::MissingPart.message(), "line has fewer than three parts");
    assert_eq!(
        ParseError::InvalidJson.message(),
        "third part of the line is not a JSON object"
    );
    assert_eq!(
        ParseError::MissingField(MetadataField::Url).message(),
        "missing field `url`"
    );
    assert_eq!(
        ParseError::MissingField(MetadataField::Filename).message(),
        "missing field `filename`"
    );
    assert_eq!(
        ParseError::WrongType(MetadataField::Languages).message(),
        "field `languages` is not a string"
    );
}
