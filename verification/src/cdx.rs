//! Index records: reading one from a line of an index file, and choosing the
//! records of pages in English.
//!
//! A line holds three parts, each set off from the next by one white-space
//! character: a sort-friendly URL key, a timestamp, and a JSON object that
//! runs to the end of the line and may hold white space of its own.

use crate::json::{find_member, json_object, lemma_member_at, member_of, members_view, read_object};
use crate::json::{JsonMember, MemberValue};
use crate::text::{contains_text, cut_at_white_space, first_white_space, occurs_in, solid, texts};
use crate::text::{lemma_first_white_space, white_space};
use vstd::prelude::*;
use vstd::string::*;

verus! {

/// What an index line says of a capture, beside its key and time.
#[derive(Debug, Clone, PartialEq, Eq)]
pub struct CdxMetadata {
    pub url: String,
    pub status: String,
    pub length: String,
    pub offset: String,
    pub filename: String,
    /// Language codes joined by commas; absent where the source gave none.
    pub languages: Option<String>,
}

/// One record of an index file.
#[derive(Debug, Clone, PartialEq, Eq)]
pub struct CdxEntry {
    pub surt_url: String,
    pub timestamp: String,
    pub metadata: CdxMetadata,
}

/// A [`CdxMetadata`] as the texts it holds.
pub struct MetadataView {
    pub url: Seq<char>,
    pub status: Seq<char>,
    pub length: Seq<char>,
    pub offset: Seq<char>,
    pub filename: Seq<char>,
    pub languages: Option<Seq<char>>,
}

/// A [`CdxEntry`] as the texts it holds.
pub struct EntryView {
    pub surt_url: Seq<char>,
    pub timestamp: Seq<char>,
    pub metadata: MetadataView,
}

impl View for CdxMetadata {
    type V = MetadataView;

    open spec fn view(&self) -> MetadataView {
        MetadataView {
            url: self.url@,
            status: self.status@,
            length: self.length@,
            offset: self.offset@,
            filename: self.filename@,
            languages: match self.languages {
                Some(codes) => Some(codes@),
                None => None,
            },
        }
    }
}

impl View for CdxEntry {
    type V = EntryView;

    open spec fn view(&self) -> EntryView {
        EntryView {
            surt_url: self.surt_url@,
            timestamp: self.timestamp@,
            metadata: self.metadata@,
        }
    }
}

/// The fields of [`CdxMetadata`], in the order in which they are read.
#[derive(Debug, Clone, Copy, PartialEq, Eq, Structural)]
pub enum MetadataField {
    Url,
    Status,
    Length,
    Offset,
    Filename,
    Languages,
}

/// Why a line is no record.
#[derive(Debug, Clone, Copy, PartialEq, Eq, Structural)]
pub enum ParseError {
    /// The line holds fewer than two white-space characters, so fewer than
    /// three parts.
    MissingPart,
    /// The third part is not a JSON object.
    InvalidJson,
    /// The object has no member for a field that every record has.
    MissingField(MetadataField),
    /// The object's member for a field is no string.
    WrongType(MetadataField),
}

impl MetadataField {
    /// The key under which the field stands in the JSON object.
    pub open spec fn key_text(self) -> Seq<char> {
        match self {
            MetadataField::Url => "url"@,
            MetadataField::Status => "status"@,
            MetadataField::Length => "length"@,
            MetadataField::Offset => "offset"@,
            MetadataField::Filename => "filename"@,
            MetadataField::Languages => "languages"@,
        }
    }

    /// The key under which the field stands in the JSON object.
    pub fn key(self) -> (r: &'static str)
        ensures
            r@ == self.key_text(),
    {
        match self {
            MetadataField::Url => "url",
            MetadataField::Status => "status",
            MetadataField::Length => "length",
            MetadataField::Offset => "offset",
            MetadataField::Filename => "filename",
            MetadataField::Languages => "languages",
        }
    }
}

/// The words that tell a parse error.
pub open spec fn message_text(error: ParseError) -> Seq<char> {
    match error {
        ParseError::MissingPart => "line has fewer than three parts"@,
        ParseError::InvalidJson => "third part of the line is not a JSON object"@,
        ParseError::MissingField(field) => "missing field `"@ + field.key_text() + "`"@,
        ParseError::WrongType(field) => "field `"@ + field.key_text() + "` is not a string"@,
    }
}

impl ParseError {
    /// The words that tell this error.
    pub fn message(&self) -> (r: String)
        ensures
            r@ == message_text(*self),
    {
        match self {
            ParseError::MissingPart => String::from_str("line has fewer than three parts"),
            ParseError::InvalidJson => String::from_str(
                "third part of the line is not a JSON object",
            ),
            ParseError::MissingField(field) => {
                let mut words = String::from_str("missing field `");
                words.append(field.key());
                words.append("`");
                words
            },
            ParseError::WrongType(field) => {
                let mut words = String::from_str("field `");
                words.append(field.key());
                words.append("` is not a string");
                words
            },
        }
    }
}

/// The three parts of a line.
pub struct LineParts {
    pub surt_url: Seq<char>,
    pub timestamp: Seq<char>,
    pub payload: Seq<char>,
}

/// The parts of a line: what stands before its first white-space character,
/// what stands between that one and the next, and all that follows the
/// second. `None` where the line holds fewer than two white-space
/// characters.
pub open spec fn line_parts(line: Seq<char>) -> Option<LineParts> {
    let i = first_white_space(line);
    if i < line.len() {
        let rest = line.subrange(i + 1, line.len() as int);
        let j = first_white_space(rest);
        if j < rest.len() {
            Some(
                LineParts {
                    surt_url: line.subrange(0, i),
                    timestamp: rest.subrange(0, j),
                    payload: rest.subrange(j + 1, rest.len() as int),
                },
            )
        } else {
            None
        }
    } else {
        None
    }
}

/// The text of a field that every record has: the member under the field's
/// key, which must be there and be a string.
pub open spec fn required_of(members: Seq<(Seq<char>, MemberValue)>, field: MetadataField) -> Result<
    Seq<char>,
    ParseError,
> {
    match member_of(members, field.key_text()) {
        None => Err(ParseError::MissingField(field)),
        Some(MemberValue::Text(text)) => Ok(text),
        Some(_) => Err(ParseError::WrongType(field)),
    }
}

/// The text of a field that a record may lack: absent where the object has
/// no member under the field's key or has `null` there; else the member must
/// be a string.
pub open spec fn optional_of(members: Seq<(Seq<char>, MemberValue)>, field: MetadataField) -> Result<
    Option<Seq<char>>,
    ParseError,
> {
    match member_of(members, field.key_text()) {
        None => Ok(None),
        Some(MemberValue::Null) => Ok(None),
        Some(MemberValue::Text(text)) => Ok(Some(text)),
        Some(_) => Err(ParseError::WrongType(field)),
    }
}

/// The metadata that the members of an object give. Members under other keys
/// are passed over. Where several fields are at fault, the error names the
/// first of them in the order of [`MetadataField`].
pub open spec fn metadata_of(members: Seq<(Seq<char>, MemberValue)>) -> Result<
    MetadataView,
    ParseError,
> {
    match required_of(members, MetadataField::Url) {
        Err(e) => Err(e),
        Ok(url) => match required_of(members, MetadataField::Status) {
            Err(e) => Err(e),
            Ok(status) => match required_of(members, MetadataField::Length) {
                Err(e) => Err(e),
                Ok(length) => match required_of(members, MetadataField::Offset) {
                    Err(e) => Err(e),
                    Ok(offset) => match required_of(members, MetadataField::Filename) {
                        Err(e) => Err(e),
                        Ok(filename) => match optional_of(members, MetadataField::Languages) {
                            Err(e) => Err(e),
                            Ok(languages) => Ok(
                                MetadataView { url, status, length, offset, filename, languages },
                            ),
                        },
                    },
                },
            },
        },
    }
}

/// The record that a line holds.
pub open spec fn parsed_line(line: Seq<char>) -> Result<EntryView, ParseError> {
    match line_parts(line) {
        None => Err(ParseError::MissingPart),
        Some(parts) => match json_object(parts.payload) {
            None => Err(ParseError::InvalidJson),
            Some(members) => match metadata_of(members) {
                Err(e) => Err(e),
                Ok(metadata) => Ok(
                    EntryView { surt_url: parts.surt_url, timestamp: parts.timestamp, metadata },
                ),
            },
        },
    }
}

/// The language code that marks a page as English.
pub open spec fn english_code() -> Seq<char> {
    seq!['e', 'n', 'g']
}

/// Whether metadata declares English: it has language codes, and
/// [`english_code`] occurs in them. The codes are not taken apart, so a
/// longer code that holds these three letters in a row counts as well.
pub open spec fn declares_english(metadata: MetadataView) -> bool {
    metadata.languages matches Some(codes) && occurs_in(english_code(), codes)
}

/// The records among `entries` that declare English, in their order.
pub open spec fn english_only(entries: Seq<EntryView>) -> Seq<EntryView> {
    entries.filter(|e: EntryView| declares_english(e.metadata))
}

/// The records that lines hold, line by line, where every line holds one.
pub open spec fn parsed_lines(lines: Seq<Seq<char>>) -> Seq<EntryView> {
    lines.map_values(|line: Seq<char>| parsed_line(line).unwrap())
}

/// The records that a vector holds.
pub open spec fn entry_views(entries: Seq<CdxEntry>) -> Seq<EntryView> {
    entries.map_values(|e: CdxEntry| e@)
}

/// A result of metadata, seen as the texts it holds.
pub open spec fn metadata_result_view(r: Result<CdxMetadata, ParseError>) -> Result<
    MetadataView,
    ParseError,
> {
    match r {
        Ok(metadata) => Ok(metadata@),
        Err(e) => Err(e),
    }
}

/// A result of a record, seen as the texts it holds.
pub open spec fn entry_result_view(r: Result<CdxEntry, ParseError>) -> Result<
    EntryView,
    ParseError,
> {
    match r {
        Ok(entry) => Ok(entry@),
        Err(e) => Err(e),
    }
}

/// The members of the object that stands for metadata: one for each field,
/// in the order of the fields, with absent languages as `null`.
pub open spec fn members_of(metadata: MetadataView) -> Seq<(Seq<char>, MemberValue)> {
    seq![
        (MetadataField::Url.key_text(), MemberValue::Text(metadata.url)),
        (MetadataField::Status.key_text(), MemberValue::Text(metadata.status)),
        (MetadataField::Length.key_text(), MemberValue::Text(metadata.length)),
        (MetadataField::Offset.key_text(), MemberValue::Text(metadata.offset)),
        (MetadataField::Filename.key_text(), MemberValue::Text(metadata.filename)),
        (
            MetadataField::Languages.key_text(),
            match metadata.languages {
                Some(codes) => MemberValue::Text(codes),
                None => MemberValue::Null,
            },
        ),
    ]
}

/// No two fields share a key.
pub proof fn lemma_keys_differ(a: MetadataField, b: MetadataField)
    ensures
        a.key_text() == b.key_text() <==> a == b,
{
    reveal_strlit("url");
    reveal_strlit("status");
    reveal_strlit("length");
    reveal_strlit("offset");
    reveal_strlit("filename");
    reveal_strlit("languages");
    if a != b && a.key_text().len() == b.key_text().len() {
        assert(a.key_text()[0] != b.key_text()[0]);
    }
}

/// A line put together from a key and a timestamp without white space, a
/// payload, and one white-space character after each of the first two, has
/// just these three parts.
pub proof fn lemma_parts_of_joined(
    surt_url: Seq<char>,
    first: char,
    timestamp: Seq<char>,
    second: char,
    payload: Seq<char>,
)
    requires
        solid(surt_url),
        solid(timestamp),
        white_space(first),
        white_space(second),
    ensures
        line_parts(surt_url + seq![first] + timestamp + seq![second] + payload) == Some(
            LineParts { surt_url, timestamp, payload },
        ),
{
    let rest = timestamp + seq![second] + payload;
    let line = surt_url + seq![first] + timestamp + seq![second] + payload;
    let i = surt_url.len() as int;
    let j = timestamp.len() as int;
    assert(line.subrange(0, i) =~= surt_url);
    assert(rest.subrange(0, j) =~= timestamp);
    lemma_first_white_space(line, i);
    lemma_first_white_space(rest, j);
    assert(line.subrange(i + 1, line.len() as int) =~= rest);
    assert(rest.subrange(j + 1, rest.len() as int) =~= payload);
}

/// A line without white space, or with a single white-space character, is
/// no record: it has fewer than three parts.
pub proof fn lemma_too_few_parts(line: Seq<char>)
    requires
        solid(line) || exists|head: Seq<char>, c: char, tail: Seq<char>|
            line == head + seq![c] + tail && solid(head) && solid(tail),
    ensures
        line_parts(line) is None,
        parsed_line(line) == Err::<EntryView, ParseError>(ParseError::MissingPart),
{
    if solid(line) {
        lemma_first_white_space(line, line.len() as int);
    } else {
        let (head, c, tail) = choose|head: Seq<char>, c: char, tail: Seq<char>|
            line == head + seq![c] + tail && solid(head) && solid(tail);
        let i = head.len() as int;
        assert(line.subrange(i + 1, line.len() as int) =~= tail);
        lemma_first_white_space(tail, tail.len() as int);
        if white_space(c) {
            lemma_first_white_space(line, i);
        } else {
            assert forall|k: int| 0 <= k < line.len() implies !white_space(#[trigger] line[k]) by {
                if k < i {
                    assert(line[k] == head[k]);
                } else if k > i {
                    assert(line[k] == tail[k - i - 1]);
                }
            }
            lemma_first_white_space(line, line.len() as int);
        }
    }
}

/// A line whose third part is not a JSON object is no record.
pub proof fn lemma_payload_must_be_object(line: Seq<char>)
    requires
        line_parts(line) matches Some(parts) && json_object(parts.payload) is None,
    ensures
        parsed_line(line) == Err::<EntryView, ParseError>(ParseError::InvalidJson),
{
}

/// Metadata read from the members that stand for it is the same metadata.
pub proof fn lemma_members_read_back(metadata: MetadataView)
    ensures
        metadata_of(members_of(metadata)) == Ok::<MetadataView, ParseError>(metadata),
{
    let members = members_of(metadata);
    assert forall|a: MetadataField, b: MetadataField|
        #[trigger] a.key_text() == #[trigger] b.key_text() implies a == b by {
        lemma_keys_differ(a, b);
    }
    lemma_member_at(members, MetadataField::Url.key_text(), 0);
    lemma_member_at(members, MetadataField::Status.key_text(), 1);
    lemma_member_at(members, MetadataField::Length.key_text(), 2);
    lemma_member_at(members, MetadataField::Offset.key_text(), 3);
    lemma_member_at(members, MetadataField::Filename.key_text(), 4);
    lemma_member_at(members, MetadataField::Languages.key_text(), 5);
}

/// Metadata keeps every field as the object gave it. Written as members
/// again, each field that the object had as a string comes back with its
/// text. Only language codes can be there without a string, where the object
/// has `null` or nothing for them, and they come back as `null`. Members
/// under other keys do not come back.
pub proof fn lemma_fields_are_kept(members: Seq<(Seq<char>, MemberValue)>, field: MetadataField)
    requires
        metadata_of(members) is Ok,
    ensures
        ({
            let written = members_of(metadata_of(members).unwrap());
            match member_of(members, field.key_text()) {
                Some(MemberValue::Text(text)) => member_of(written, field.key_text()) == Some(
                    MemberValue::Text(text),
                ),
                _ => field == MetadataField::Languages && member_of(written, field.key_text())
                    == Some(MemberValue::Null),
            }
        }),
{
    let metadata = metadata_of(members).unwrap();
    let written = members_of(metadata);
    lemma_members_read_back(metadata);
    assert forall|a: MetadataField, b: MetadataField|
        #[trigger] a.key_text() == #[trigger] b.key_text() implies a == b by {
        lemma_keys_differ(a, b);
    }
    match field {
        MetadataField::Url => lemma_member_at(written, field.key_text(), 0),
        MetadataField::Status => lemma_member_at(written, field.key_text(), 1),
        MetadataField::Length => lemma_member_at(written, field.key_text(), 2),
        MetadataField::Offset => lemma_member_at(written, field.key_text(), 3),
        MetadataField::Filename => lemma_member_at(written, field.key_text(), 4),
        MetadataField::Languages => lemma_member_at(written, field.key_text(), 5),
    }
}

fn required_text(members: &Vec<(String, JsonMember)>, field: MetadataField) -> (r: Result<
    String,
    ParseError,
>)
    ensures
        match r {
            Ok(text) => required_of(members_view(members@), field) == Ok::<Seq<char>, ParseError>(
                text@,
            ),
            Err(e) => required_of(members_view(members@), field) == Err::<Seq<char>, ParseError>(e),
        },
{
    match find_member(members, field.key()) {
        None => Err(ParseError::MissingField(field)),
        Some(JsonMember::Text(text)) => Ok(text.clone()),
        Some(_) => Err(ParseError::WrongType(field)),
    }
}

fn optional_text(members: &Vec<(String, JsonMember)>, field: MetadataField) -> (r: Result<
    Option<String>,
    ParseError,
>)
    ensures
        match r {
            Ok(Some(text)) => optional_of(members_view(members@), field) == Ok::<
                Option<Seq<char>>,
                ParseError,
            >(Some(text@)),
            Ok(None) => optional_of(members_view(members@), field) == Ok::<
                Option<Seq<char>>,
                ParseError,
            >(None),
            Err(e) => optional_of(members_view(members@), field) == Err::<
                Option<Seq<char>>,
                ParseError,
            >(e),
        },
{
    match find_member(members, field.key()) {
        None => Ok(None),
        Some(JsonMember::Null) => Ok(None),
        Some(JsonMember::Text(text)) => Ok(Some(text.clone())),
        Some(_) => Err(ParseError::WrongType(field)),
    }
}

/// Builds the metadata of a record from the members of its JSON object.
pub fn metadata_from_members(members: &Vec<(String, JsonMember)>) -> (r: Result<
    CdxMetadata,
    ParseError,
>)
    ensures
        metadata_result_view(r) == metadata_of(members_view(members@)),
{
    let url = match required_text(members, MetadataField::Url) {
        Ok(text) => text,
        Err(e) => return Err(e),
    };
    let status = match required_text(members, MetadataField::Status) {
        Ok(text) => text,
        Err(e) => return Err(e),
    };
    let length = match required_text(members, MetadataField::Length) {
        Ok(text) => text,
        Err(e) => return Err(e),
    };
    let offset = match required_text(members, MetadataField::Offset) {
        Ok(text) => text,
        Err(e) => return Err(e),
    };
    let filename = match required_text(members, MetadataField::Filename) {
        Ok(text) => text,
        Err(e) => return Err(e),
    };
    let languages = match optional_text(members, MetadataField::Languages) {
        Ok(codes) => codes,
        Err(e) => return Err(e),
    };
    Ok(CdxMetadata { url, status, length, offset, filename, languages })
}

/// Reads the record that a line of an index file holds.
pub fn parse_cdx_line(line: &str) -> (r: Result<CdxEntry, ParseError>)
    ensures
        entry_result_view(r) == parsed_line(line@),
{
    let (surt_url, rest) = match cut_at_white_space(line) {
        Some(cut) => cut,
        None => return Err(ParseError::MissingPart),
    };
    let (timestamp, payload) = match cut_at_white_space(rest) {
        Some(cut) => cut,
        None => return Err(ParseError::MissingPart),
    };
    let members = match read_object(payload) {
        Ok(members) => members,
        Err(_) => return Err(ParseError::InvalidJson),
    };
    match metadata_from_members(&members) {
        Ok(metadata) => Ok(
            CdxEntry { surt_url: surt_url.to_owned(), timestamp: timestamp.to_owned(), metadata },
        ),
        Err(e) => Err(e),
    }
}

/// Whether a record is kept: its metadata declares English.
pub fn keep(entry: &CdxEntry) -> (r: bool)
    ensures
        r == declares_english(entry@.metadata),
{
    match &entry.metadata.languages {
        Some(codes) => {
            proof {
                reveal_strlit("eng");
                assert("eng"@ =~= english_code());
            }
            contains_text(codes.as_str(), "eng")
        },
        None => false,
    }
}

/// Reads the record of every line and keeps those that declare English, in
/// the order of their lines. The first line that holds no record ends the
/// work with that line's error.
pub fn english_entries(lines: &Vec<String>) -> (r: Result<Vec<CdxEntry>, ParseError>)
    ensures
        match r {
            Ok(entries) => {
                &&& forall|i: int| 0 <= i < lines@.len() ==> parsed_line(#[trigger] lines@[i]@) is Ok
                &&& entry_views(entries@) == english_only(parsed_lines(texts(lines@)))
            },
            Err(e) => exists|i: int|
                {
                    &&& 0 <= i < lines@.len()
                    &&& parsed_line(#[trigger] lines@[i]@) == Err::<EntryView, ParseError>(e)
                    &&& forall|j: int| 0 <= j < i ==> parsed_line(#[trigger] lines@[j]@) is Ok
                },
        },
{
    let mut kept: Vec<CdxEntry> = Vec::new();
    let mut i: usize = 0;
    while i < lines.len()
        invariant
            i <= lines@.len(),
            forall|j: int| 0 <= j < i ==> parsed_line(#[trigger] lines@[j]@) is Ok,
            entry_views(kept@) == english_only(parsed_lines(texts(lines@).take(i as int))),
        decreases lines@.len() - i,
    {
        let ghost before = parsed_lines(texts(lines@).take(i as int));
        match parse_cdx_line(lines[i].as_str()) {
            Err(e) => {
                return Err(e);
            },
            Ok(entry) => {
                proof {
                    assert(parsed_lines(texts(lines@).take(i + 1)) =~= before.push(entry@));
                    before.lemma_filter_push(entry@, |e: EntryView| declares_english(e.metadata));
                }
                if keep(&entry) {
                    kept.push(entry);
                }
            },
        }
        i += 1;
    }
    proof {
        assert(texts(lines@).take(i as int) =~= texts(lines@));
    }
    Ok(kept)
}

} // verus!
