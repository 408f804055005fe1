//! The message that carries a batch: a JSON array with one object for each
//! record, written without any space between the tokens.
//!
//! Each record is written as
//! `{"surt_url":..,"timestamp":..,"metadata":{"url":..,"status":..,"length":..,"offset":..,"filename":..,"languages":..}}`
//! with every text as a JSON string and absent languages as `null`. The
//! strings are written by `serde_json`; the frame around them is written
//! here.

use crate::cdx::{entry_views, CdxEntry, CdxMetadata, EntryView, MetadataView};
use crate::json::{json_quoted, quote};
use crate::text::texts;
use vstd::prelude::*;
use vstd::string::*;
use vstd::utf8::encode_utf8;

verus! {

/// A text could not be written as a JSON string.
#[derive(Debug, Clone, Copy, PartialEq, Eq, Structural)]
pub struct EncodeError;

/// The object for metadata, given each field as JSON already.
pub open spec fn framed_metadata(
    url: Seq<char>,
    status: Seq<char>,
    length: Seq<char>,
    offset: Seq<char>,
    filename: Seq<char>,
    languages: Seq<char>,
) -> Seq<char> {
    "{\"url\":"@ + url + ",\"status\":"@ + status + ",\"length\":"@ + length + ",\"offset\":"@
        + offset + ",\"filename\":"@ + filename + ",\"languages\":"@ + languages + "}"@
}

/// The object for a record, given each field as JSON already.
pub open spec fn framed_entry(surt_url: Seq<char>, timestamp: Seq<char>, metadata: Seq<char>) -> Seq<
    char,
> {
    "{\"surt_url\":"@ + surt_url + ",\"timestamp\":"@ + timestamp + ",\"metadata\":"@ + metadata
        + "}"@
}

/// Texts in a row with a comma between each two.
pub open spec fn comma_joined(items: Seq<Seq<char>>) -> Seq<char>
    decreases items.len(),
{
    if items.len() == 0 {
        Seq::empty()
    } else if items.len() == 1 {
        items[0]
    } else {
        comma_joined(items.drop_last()) + ","@ + items.last()
    }
}

/// The array that holds `items`, each of them JSON already.
pub open spec fn framed_batch(items: Seq<Seq<char>>) -> Seq<char> {
    "["@ + comma_joined(items) + "]"@
}

/// The JSON for language codes: a string, or `null` where there are none.
pub open spec fn languages_json(languages: Option<Seq<char>>) -> Option<Seq<char>> {
    match languages {
        Some(codes) => json_quoted(codes),
        None => Some("null"@),
    }
}

/// The JSON for metadata; `None` where one of its texts cannot be written.
pub open spec fn metadata_json(metadata: MetadataView) -> Option<Seq<char>> {
    if json_quoted(metadata.url) is Some && json_quoted(metadata.status) is Some && json_quoted(
        metadata.length,
    ) is Some && json_quoted(metadata.offset) is Some && json_quoted(metadata.filename) is Some
        && languages_json(metadata.languages) is Some {
        Some(
            framed_metadata(
                json_quoted(metadata.url).unwrap(),
                json_quoted(metadata.status).unwrap(),
                json_quoted(metadata.length).unwrap(),
                json_quoted(metadata.offset).unwrap(),
                json_quoted(metadata.filename).unwrap(),
                languages_json(metadata.languages).unwrap(),
            ),
        )
    } else {
        None
    }
}

/// The JSON for a record; `None` where one of its texts cannot be written.
pub open spec fn entry_json(entry: EntryView) -> Option<Seq<char>> {
    if json_quoted(entry.surt_url) is Some && json_quoted(entry.timestamp) is Some
        && metadata_json(entry.metadata) is Some {
        Some(
            framed_entry(
                json_quoted(entry.surt_url).unwrap(),
                json_quoted(entry.timestamp).unwrap(),
                metadata_json(entry.metadata).unwrap(),
            ),
        )
    } else {
        None
    }
}

/// The JSON for a batch; `None` where one of its records cannot be written.
pub open spec fn batch_json(batch: Seq<EntryView>) -> Option<Seq<char>> {
    if forall|i: int| 0 <= i < batch.len() ==> entry_json(#[trigger] batch[i]) is Some {
        Some(framed_batch(batch.map_values(|e: EntryView| entry_json(e).unwrap())))
    } else {
        None
    }
}

/// Writes the object for metadata around its fields, each JSON already.
pub fn frame_metadata(
    url: &str,
    status: &str,
    length: &str,
    offset: &str,
    filename: &str,
    languages: &str,
) -> (r: String)
    ensures
        r@ == framed_metadata(url@, status@, length@, offset@, filename@, languages@),
{
    let mut out = String::from_str("{\"url\":");
    out.append(url);
    out.append(",\"status\":");
    out.append(status);
    out.append(",\"length\":");
    out.append(length);
    out.append(",\"offset\":");
    out.append(offset);
    out.append(",\"filename\":");
    out.append(filename);
    out.append(",\"languages\":");
    out.append(languages);
    out.append("}");
    out
}

/// Writes the object for a record around its fields, each JSON already.
pub fn frame_entry(surt_url: &str, timestamp: &str, metadata: &str) -> (r: String)
    ensures
        r@ == framed_entry(surt_url@, timestamp@, metadata@),
{
    let mut out = String::from_str("{\"surt_url\":");
    out.append(surt_url);
    out.append(",\"timestamp\":");
    out.append(timestamp);
    out.append(",\"metadata\":");
    out.append(metadata);
    out.append("}");
    out
}

/// Writes the array around its items, each JSON already.
pub fn frame_batch(items: &Vec<String>) -> (r: String)
    ensures
        r@ == framed_batch(texts(items@)),
{
    let ghost all = texts(items@);
    let mut out = String::from_str("[");
    let mut i: usize = 0;
    while i < items.len()
        invariant
            i <= items@.len(),
            all == texts(items@),
            out@ == "["@ + comma_joined(all.take(i as int)),
        decreases items@.len() - i,
    {
        proof {
            assert(all.take(i + 1).drop_last() =~= all.take(i as int));
        }
        if i > 0 {
            out.append(",");
        }
        out.append(items[i].as_str());
        i += 1;
    }
    proof {
        assert(all.take(i as int) =~= all);
    }
    out.append("]");
    out
}

/// Writes metadata as JSON.
pub fn encode_metadata(metadata: &CdxMetadata) -> (r: Result<String, EncodeError>)
    ensures
        match r {
            Ok(text) => metadata_json(metadata@) == Some(text@),
            Err(_) => metadata_json(metadata@) is None,
        },
{
    let url = match quote(metadata.url.as_str()) {
        Ok(text) => text,
        Err(_) => return Err(EncodeError),
    };
    let status = match quote(metadata.status.as_str()) {
        Ok(text) => text,
        Err(_) => return Err(EncodeError),
    };
    let length = match quote(metadata.length.as_str()) {
        Ok(text) => text,
        Err(_) => return Err(EncodeError),
    };
    let offset = match quote(metadata.offset.as_str()) {
        Ok(text) => text,
        Err(_) => return Err(EncodeError),
    };
    let filename = match quote(metadata.filename.as_str()) {
        Ok(text) => text,
        Err(_) => return Err(EncodeError),
    };
    let languages = match &metadata.languages {
        Some(codes) => match quote(codes.as_str()) {
            Ok(text) => text,
            Err(_) => return Err(EncodeError),
        },
        None => String::from_str("null"),
    };
    Ok(
        frame_metadata(
            url.as_str(),
            status.as_str(),
            length.as_str(),
            offset.as_str(),
            filename.as_str(),
            languages.as_str(),
        ),
    )
}

/// Writes a record as JSON.
pub fn encode_entry(entry: &CdxEntry) -> (r: Result<String, EncodeError>)
    ensures
        match r {
            Ok(text) => entry_json(entry@) == Some(text@),
            Err(_) => entry_json(entry@) is None,
        },
{
    let surt_url = match quote(entry.surt_url.as_str()) {
        Ok(text) => text,
        Err(_) => return Err(EncodeError),
    };
    let timestamp = match quote(entry.timestamp.as_str()) {
        Ok(text) => text,
        Err(_) => return Err(EncodeError),
    };
    let metadata = match encode_metadata(&entry.metadata) {
        Ok(text) => text,
        Err(e) => return Err(e),
    };
    Ok(frame_entry(surt_url.as_str(), timestamp.as_str(), metadata.as_str()))
}

/// Writes a batch as the bytes of its message: the UTF-8 encoding of the
/// JSON array of its records.
pub fn encode_batch(batch: &[CdxEntry]) -> (r: Result<Vec<u8>, EncodeError>)
    ensures
        match r {
            Ok(bytes) => batch_json(entry_views(batch@)) matches Some(text) && bytes@
                == encode_utf8(text),
            Err(_) => batch_json(entry_views(batch@)) is None,
        },
{
    let ghost views = entry_views(batch@);
    let mut items: Vec<String> = Vec::new();
    let mut i: usize = 0;
    while i < batch.len()
        invariant
            i <= batch@.len(),
            views == entry_views(batch@),
            items@.len() == i,
            forall|j: int| 0 <= j < i ==> entry_json(#[trigger] views[j]) == Some(items@[j]@),
        decreases batch@.len() - i,
    {
        match encode_entry(&batch[i]) {
            Ok(text) => {
                items.push(text);
            },
            Err(e) => {
                proof {
                    assert(entry_json(views[i as int]) is None);
                }
                return Err(e);
            },
        }
        i += 1;
    }
    proof {
        assert(views.map_values(|e: EntryView| entry_json(e).unwrap()) =~= texts(items@));
    }
    let text = frame_batch(&items);
    Ok(text.as_str().as_bytes_vec())
}

} // verus!
