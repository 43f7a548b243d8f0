//! Content sniffing: an ordered table of byte patterns, each with the content
//! type it stands for or a nested table that tells related formats apart.

use crate::mime::{detect_mime_type_ext, opt_str_view, path_mime};
use crate::text::{matches_at, occurs_at};
use vstd::prelude::*;
use vstd::string::*;

verus! {

/// Where a pattern may start in the content.
#[derive(Clone, Copy, Debug)]
pub enum MagicOffset {
    /// Exactly at this offset.
    At(usize),
    /// At any offset below this bound.
    Before(usize),
}

/// What a matching pattern stands for, as a mathematical value.
pub enum MagicRule {
    /// A content type.
    Mime(Seq<char>),
    /// A nested table; where none of its entries matches, the fallback.
    Specialized(Option<Seq<char>>, Seq<MagicEntry>),
}

/// One entry of a table, as a mathematical value.
pub struct MagicEntry {
    pub offset: MagicOffset,
    pub pattern: Seq<u8>,
    pub rule: MagicRule,
}

/// Whether the pattern of `entry` occurs in `data` where its offset rule
/// allows. A pattern that would run past the end of `data` does not occur.
pub open spec fn entry_matches(entry: MagicEntry, data: Seq<u8>) -> bool {
    pattern_occurs(entry.offset, entry.pattern, data)
}

/// Whether `pattern` occurs in `data` where `offset` allows.
pub open spec fn pattern_occurs(offset: MagicOffset, pattern: Seq<u8>, data: Seq<u8>) -> bool {
    match offset {
        MagicOffset::At(at) => occurs_at(data, at as int, pattern),
        MagicOffset::Before(bound) => exists|j: int|
            0 <= j < bound && #[trigger] occurs_at(data, j, pattern),
    }
}

/// The content type that `table` gives `data`, looking at the entries from
/// index `from` on: the first entry that matches decides. A nested table is
/// consulted in the same way, and its fallback stands where it finds nothing.
pub open spec fn lookup_from(table: Seq<MagicEntry>, from: int, data: Seq<u8>) -> Option<Seq<char>>
    decreases table, table.len() - from,
{
    if from < 0 || from >= table.len() {
        None
    } else if entry_matches(table[from], data) {
        match table[from].rule {
            MagicRule::Mime(mime) => Some(mime),
            MagicRule::Specialized(fallback, nested) => match lookup_from(nested, 0, data) {
                Some(mime) => Some(mime),
                None => fallback,
            },
        }
    } else {
        lookup_from(table, from + 1, data)
    }
}

/// The content type that `table` gives `data`.
pub open spec fn lookup_magic_spec(table: Seq<MagicEntry>, data: Seq<u8>) -> Option<Seq<char>> {
    lookup_from(table, 0, data)
}

/// What a matching pattern stands for.
pub enum Magic {
    /// A content type.
    Mime(&'static str),
    /// A nested table; where none of its entries matches, the fallback.
    Specialized(Option<&'static str>, MagicTable),
}

/// One entry of a table: an offset rule, a byte pattern, and what a match
/// stands for.
pub struct MagicLookup {
    pub offset: MagicOffset,
    pub pattern: Vec<u8>,
    pub outcome: Magic,
}

/// An ordered table of entries. Its view is the sequence of its entries as
/// mathematical values.
pub struct MagicTable {
    entries: Vec<MagicLookup>,
    model: Ghost<Seq<MagicEntry>>,
}

impl MagicLookup {
    /// The entry as a mathematical value.
    pub open spec fn view(&self) -> MagicEntry {
        MagicEntry {
            offset: self.offset,
            pattern: self.pattern@,
            rule: match self.outcome {
                Magic::Mime(mime) => MagicRule::Mime(mime@),
                Magic::Specialized(fallback, nested) => MagicRule::Specialized(
                    opt_str_view(fallback),
                    nested@,
                ),
            },
        }
    }
}

impl MagicTable {
    /// The entries of the table, in order.
    pub closed spec fn view(&self) -> Seq<MagicEntry> {
        self.model@
    }

    #[verifier::type_invariant]
    spec fn well_formed(self) -> bool {
        &&& self.entries@.len() == self.model@.len()
        &&& forall|i: int| 0 <= i < self.entries@.len() ==> (#[trigger] self.entries@[i])@ == self.model@[i]
    }

    /// The table without entries.
    pub fn new() -> (table: MagicTable)
        ensures
            table@ == Seq::<MagicEntry>::empty(),
    {
        MagicTable { entries: Vec::new(), model: Ghost(Seq::empty()) }
    }

    /// The table with one more entry at its end.
    pub fn with(self, offset: MagicOffset, pattern: Vec<u8>, outcome: Magic) -> (table: MagicTable)
        ensures
            table@ == self@.push((MagicLookup { offset, pattern, outcome })@),
    {
        proof {
            use_type_invariant(&self);
        }
        let entry = MagicLookup { offset, pattern, outcome };
        let ghost model = self.model@.push(entry@);
        let mut entries = self.entries;
        entries.push(entry);
        MagicTable { entries, model: Ghost(model) }
    }

    /// The table with one more entry, whose match stands for `mime`.
    pub fn with_mime(self, offset: MagicOffset, pattern: Vec<u8>, mime: &'static str) -> (table:
        MagicTable)
        ensures
            table@ == self@.push(leaf(offset, pattern@, mime@)),
    {
        self.with(offset, pattern, Magic::Mime(mime))
    }

    /// The table with one more entry, whose match is told apart further by
    /// `nested`, with `fallback` where `nested` finds nothing.
    pub fn with_nested(
        self,
        offset: MagicOffset,
        pattern: Vec<u8>,
        fallback: Option<&'static str>,
        nested: MagicTable,
    ) -> (table: MagicTable)
        ensures
            table@ == self@.push(node(offset, pattern@, opt_str_view(fallback), nested@)),
    {
        self.with(offset, pattern, Magic::Specialized(fallback, nested))
    }

    /// The number of entries.
    pub fn len(&self) -> (n: usize)
        ensures
            n == self@.len(),
    {
        proof {
            use_type_invariant(self);
        }
        self.entries.len()
    }

    /// The entry at `index`.
    pub fn entry(&self, index: usize) -> (entry: &MagicLookup)
        requires
            index < self@.len(),
        ensures
            entry@ == self@[index as int],
    {
        proof {
            use_type_invariant(self);
        }
        &self.entries[index]
    }
}

/// Tests whether `pattern` occurs in `data` where `offset` allows.
pub fn pattern_matches(offset: MagicOffset, pattern: &[u8], data: &[u8]) -> (hit: bool)
    ensures
        hit == pattern_occurs(offset, pattern@, data@),
{
    match offset {
        MagicOffset::At(at) => matches_at(data, at, pattern),
        MagicOffset::Before(bound) => {
            if pattern.len() > data.len() {
                return false;
            }
            let last = data.len() - pattern.len();
            let mut j: usize = 0;
            while j < bound && j <= last
                invariant
                    offset == MagicOffset::Before(bound),
                    last == data@.len() - pattern@.len(),
                    forall|k: int| 0 <= k < j ==> !occurs_at(data@, k, pattern@),
                decreases bound - j,
            {
                if matches_at(data, j, pattern) {
                    assert(0 <= j < bound && occurs_at(data@, j as int, pattern@));
                    return true;
                }
                j += 1;
            }
            false
        },
    }
}

/// Looks `data` up in `table` from the entry at `from` on.
pub fn lookup_magic_from(table: &MagicTable, from: usize, data: &[u8]) -> (res: Option<
    &'static str,
>)
    ensures
        opt_str_view(res) == lookup_from(table@, from as int, data@),
    decreases table@, table@.len() - from,
{
    if from >= table.len() {
        return None;
    }
    let entry = table.entry(from);
    assert(entry@ == table@[from as int]);
    if pattern_matches(entry.offset, entry.pattern.as_slice(), data) {
        match &entry.outcome {
            Magic::Mime(mime) => Some(*mime),
            Magic::Specialized(fallback, nested) => {
                match lookup_magic_from(nested, 0, data) {
                    Some(mime) => Some(mime),
                    None => *fallback,
                }
            },
        }
    } else {
        lookup_magic_from(table, from + 1, data)
    }
}

/// Looks `data` up in `table`: the first matching entry decides the content
/// type.
pub fn lookup_magic(table: &MagicTable, data: &[u8]) -> (res: Option<&'static str>)
    ensures
        opt_str_view(res) == lookup_magic_spec(table@, data@),
{
    lookup_magic_from(table, 0, data)
}

/// An entry whose match stands for the content type `mime`.
pub open spec fn leaf(offset: MagicOffset, pattern: Seq<u8>, mime: Seq<char>) -> MagicEntry {
    MagicEntry { offset, pattern, rule: MagicRule::Mime(mime) }
}

/// An entry whose match is told apart further by the table `nested`.
pub open spec fn node(
    offset: MagicOffset,
    pattern: Seq<u8>,
    fallback: Option<Seq<char>>,
    nested: Seq<MagicEntry>,
) -> MagicEntry {
    MagicEntry { offset, pattern, rule: MagicRule::Specialized(fallback, nested) }
}

/// The table for the brands of an ISO base media `ftyp` box. The box starts
/// with four bytes of size and the four of `ftyp`; the brand follows them.
pub open spec fn ftyp_entries() -> Seq<MagicEntry> {
    Seq::<MagicEntry>::empty()
        .push(leaf(MagicOffset::At(8), "avif".spec_bytes(), "image/avif"@))
        .push(leaf(MagicOffset::At(8), "heic".spec_bytes(), "image/heic"@))
        .push(leaf(MagicOffset::At(8), "isom".spec_bytes(), "video/mp4"@))
        .push(leaf(MagicOffset::At(8), "mp41".spec_bytes(), "video/mp4"@))
        .push(leaf(MagicOffset::At(8), "mp42".spec_bytes(), "video/mp4"@))
        .push(leaf(MagicOffset::At(8), "mmp4".spec_bytes(), "video/mp4"@))
        .push(leaf(MagicOffset::At(8), "M4A".spec_bytes(), "audio/mp4"@))
}

/// Builds the table for the brands of an ISO base media `ftyp` box.
pub fn ftyp_table() -> (table: MagicTable)
    ensures
        table@ == ftyp_entries(),
{
    MagicTable::new()
        .with_mime(MagicOffset::At(8), "avif".as_bytes_vec(), "image/avif")
        .with_mime(MagicOffset::At(8), "heic".as_bytes_vec(), "image/heic")
        .with_mime(MagicOffset::At(8), "isom".as_bytes_vec(), "video/mp4")
        .with_mime(MagicOffset::At(8), "mp41".as_bytes_vec(), "video/mp4")
        .with_mime(MagicOffset::At(8), "mp42".as_bytes_vec(), "video/mp4")
        .with_mime(MagicOffset::At(8), "mmp4".as_bytes_vec(), "video/mp4")
        .with_mime(MagicOffset::At(8), "M4A".as_bytes_vec(), "audio/mp4")
}

/// The bytes of a string of ASCII characters are its characters.
proof fn lemma_ascii_bytes(s: &str)
    requires
        is_ascii(s),
    ensures
        s.spec_bytes().len() == s@.len(),
        forall|i: int| 0 <= i < s@.len() ==> s.spec_bytes()[i] == #[trigger] s@[i] as u8,
{
    is_ascii_spec_bytes(s);
}

/// An `ftyp` box of brand `avif` is AVIF and one of brand `heic` is HEIC,
/// whatever else the content holds: the brand is read at offset 8.
pub proof fn lemma_ftyp_brands(data: Seq<u8>)
    ensures
        occurs_at(data, 8, "avif".spec_bytes()) ==> lookup_magic_spec(ftyp_entries(), data) == Some(
            "image/avif"@,
        ),
        occurs_at(data, 8, "heic".spec_bytes()) ==> lookup_magic_spec(ftyp_entries(), data) == Some(
            "image/heic"@,
        ),
{
    reveal_strlit("avif");
    reveal_strlit("heic");
    lemma_ascii_bytes("avif");
    lemma_ascii_bytes("heic");
    let avif = "avif".spec_bytes();
    let heic = "heic".spec_bytes();
    assert(avif[0] == 0x61 && heic[0] == 0x68);
    let table = ftyp_entries();
    assert(table[0] == leaf(MagicOffset::At(8), avif, "image/avif"@));
    assert(table[1] == leaf(MagicOffset::At(8), heic, "image/heic"@));
    if occurs_at(data, 8, heic) {
        assert(data.subrange(8, 12)[0] == heic[0]);
        assert(!occurs_at(data, 8, avif));
        reveal_with_fuel(lookup_from, 3);
    }
}

/// The table for the formats held in a RIFF container. The container starts
/// with `RIFF` and four bytes of size; the form type follows them.
pub open spec fn riff_entries() -> Seq<MagicEntry> {
    Seq::<MagicEntry>::empty()
        .push(leaf(MagicOffset::At(8), "AVI ".spec_bytes(), "video/x-msvideo"@))
        .push(leaf(MagicOffset::At(8), "CDDA".spec_bytes(), "audio/aiff"@))
        .push(leaf(MagicOffset::At(8), "WAVE".spec_bytes(), "audio/wav"@))
        .push(leaf(MagicOffset::At(8), "WEBP".spec_bytes(), "image/webp"@))
}

/// Builds the table for the formats held in a RIFF container.
pub fn riff_table() -> (table: MagicTable)
    ensures
        table@ == riff_entries(),
{
    MagicTable::new()
        .with_mime(MagicOffset::At(8), "AVI ".as_bytes_vec(), "video/x-msvideo")
        .with_mime(MagicOffset::At(8), "CDDA".as_bytes_vec(), "audio/aiff")
        .with_mime(MagicOffset::At(8), "WAVE".as_bytes_vec(), "audio/wav")
        .with_mime(MagicOffset::At(8), "WEBP".as_bytes_vec(), "image/webp")
}

/// The table for the document kinds that follow an XML prolog.
pub open spec fn xml_entries() -> Seq<MagicEntry> {
    Seq::<MagicEntry>::empty()
        .push(leaf(MagicOffset::Before(46), "<!DOCTYPE html".spec_bytes(), "application/xhtml+xml"@))
        .push(leaf(MagicOffset::Before(46), "<!DOCTYPE svg".spec_bytes(), "image/svg+xml"@))
        .push(leaf(MagicOffset::Before(120), "xmlns=\"http://www.w3.org/1999/html\"".spec_bytes(), "application/xhtml+xml"@))
        .push(leaf(MagicOffset::Before(120), "xmlns=\"http://www.w3.org/2000/svg\"".spec_bytes(), "image/svg+xml"@))
        .push(leaf(MagicOffset::Before(46), "<html".spec_bytes(), "application/xhtml+xml"@))
        .push(leaf(MagicOffset::Before(46), "<svg".spec_bytes(), "image/svg+xml"@))
}

/// Builds the table for the document kinds that follow an XML prolog.
pub fn xml_table() -> (table: MagicTable)
    ensures
        table@ == xml_entries(),
{
    MagicTable::new()
        .with_mime(MagicOffset::Before(46), "<!DOCTYPE html".as_bytes_vec(), "application/xhtml+xml")
        .with_mime(MagicOffset::Before(46), "<!DOCTYPE svg".as_bytes_vec(), "image/svg+xml")
        .with_mime(MagicOffset::Before(120), "xmlns=\"http://www.w3.org/1999/html\"".as_bytes_vec(), "application/xhtml+xml")
        .with_mime(MagicOffset::Before(120), "xmlns=\"http://www.w3.org/2000/svg\"".as_bytes_vec(), "image/svg+xml")
        .with_mime(MagicOffset::Before(46), "<html".as_bytes_vec(), "application/xhtml+xml")
        .with_mime(MagicOffset::Before(46), "<svg".as_bytes_vec(), "image/svg+xml")
}

/// The table for the known leading byte patterns.
pub open spec fn magic_entries() -> Seq<MagicEntry> {
    Seq::<MagicEntry>::empty()
        .push(leaf(MagicOffset::At(0), [0x00u8, 0x00u8, 0x01u8, 0xbau8]@, "video/mpeg"@))
        .push(leaf(MagicOffset::At(0), [0x00u8, 0x00u8, 0x01u8, 0xbbu8]@, "video/mpeg"@))
        .push(leaf(MagicOffset::At(0), [0x00u8, 0x61u8, 0x73u8, 0x6du8]@, "text/x-asm"@))
        .push(leaf(MagicOffset::At(0), [0x1au8, 0x45u8, 0xdfu8, 0xa3u8]@, "video/webm"@))
        .push(leaf(MagicOffset::At(0), [0x1fu8, 0x8bu8, 0x08u8]@, "application/x-gzip"@))
        .push(leaf(MagicOffset::At(0), "#!/bin/bash\n".spec_bytes(), "application/x-sh"@))
        .push(leaf(MagicOffset::At(0), "#!/bin/sh\n".spec_bytes(), "application/x-sh"@))
        .push(leaf(MagicOffset::At(0), [0x37u8, 0x7au8, 0xbcu8, 0xafu8, 0x27u8, 0x1cu8]@, "application/x-7z-compressed"@))
        .push(node(MagicOffset::At(0), "<?xml".spec_bytes(), Some("text/xml"@), xml_entries()))
        .push(leaf(MagicOffset::At(0), "<!DOCTYPE html".spec_bytes(), "text/html"@))
        .push(leaf(MagicOffset::At(0), "<html".spec_bytes(), "text/html"@))
        .push(leaf(MagicOffset::At(0), "<svg".spec_bytes(), "image/svg+xml"@))
        .push(leaf(MagicOffset::At(0), "BZh".spec_bytes(), "application/x-bzip2"@))
        .push(leaf(MagicOffset::At(0), "GIF87a".spec_bytes(), "image/gif"@))
        .push(leaf(MagicOffset::At(0), "GIF89a".spec_bytes(), "image/gif"@))
        .push(leaf(MagicOffset::At(0), "I I".spec_bytes(), "image/tiff"@))
        .push(leaf(MagicOffset::At(0), "ID3".spec_bytes(), "audio/mp3"@))
        .push(leaf(MagicOffset::At(0), [0x49u8, 0x49u8, 0x2au8, 0x00u8]@, "image/tiff"@))
        .push(leaf(MagicOffset::At(0), [0x4du8, 0x4du8, 0x00u8, 0x2au8]@, "image/tiff"@))
        .push(leaf(MagicOffset::At(0), [0x4du8, 0x4du8, 0x00u8, 0x2bu8]@, "image/tiff"@))
        .push(leaf(MagicOffset::At(0), "MThd".spec_bytes(), "audio/midi"@))
        .push(leaf(MagicOffset::At(0), [0x4fu8, 0x67u8, 0x67u8, 0x53u8, 0x00u8, 0x02u8, 0x00u8, 0x00u8, 0x00u8, 0x00u8, 0x00u8, 0x00u8, 0x00u8, 0x00u8]@, "application/ogg"@))
        .push(leaf(MagicOffset::At(0), [0x50u8, 0x4bu8, 0x03u8, 0x04u8]@, "application/ogg"@))
        .push(node(MagicOffset::At(0), "RIFF".spec_bytes(), None, riff_entries()))
        .push(leaf(MagicOffset::At(0), [0x52u8, 0x61u8, 0x72u8, 0x21u8, 0x1au8, 0x07u8]@, "application/vnd.rar"@))
        .push(leaf(MagicOffset::At(0), "gimp xcf ".spec_bytes(), "image/x-xcf"@))
        .push(leaf(MagicOffset::At(0), "icns".spec_bytes(), "image/x-icns"@))
        .push(leaf(MagicOffset::At(0), [0x74u8, 0x72u8, 0x75u8, 0x65u8, 0x00u8]@, "font/ttf"@))
        .push(leaf(MagicOffset::At(0), "wOFF".spec_bytes(), "font/woff"@))
        .push(leaf(MagicOffset::At(0), "wOF2".spec_bytes(), "font/woff2"@))
        .push(leaf(MagicOffset::At(0), "%PDF-".spec_bytes(), "application/pdf"@))
        .push(leaf(MagicOffset::At(0), [0x25u8, 0x50u8, 0x4eu8, 0x47u8, 0x0du8, 0x0au8, 0x1au8, 0x0au8]@, "image/png"@))
        .push(leaf(MagicOffset::At(0), [0xffu8, 0xd8u8]@, "image/jpeg"@))
        .push(node(MagicOffset::At(4), "ftyp".spec_bytes(), None, ftyp_entries()))
        .push(leaf(MagicOffset::At(4), "moov".spec_bytes(), "video/quicktime"@))
        .push(leaf(MagicOffset::At(257), "ustar".spec_bytes(), "application/x-tar"@))
}

/// Builds the table for the known leading byte patterns.
pub fn magic_table() -> (table: MagicTable)
    ensures
        table@ == magic_entries(),
{
    MagicTable::new()
        .with_mime(MagicOffset::At(0), vec![0x00u8, 0x00u8, 0x01u8, 0xbau8], "video/mpeg")
        .with_mime(MagicOffset::At(0), vec![0x00u8, 0x00u8, 0x01u8, 0xbbu8], "video/mpeg")
        .with_mime(MagicOffset::At(0), vec![0x00u8, 0x61u8, 0x73u8, 0x6du8], "text/x-asm")
        .with_mime(MagicOffset::At(0), vec![0x1au8, 0x45u8, 0xdfu8, 0xa3u8], "video/webm")
        .with_mime(MagicOffset::At(0), vec![0x1fu8, 0x8bu8, 0x08u8], "application/x-gzip")
        .with_mime(MagicOffset::At(0), "#!/bin/bash\n".as_bytes_vec(), "application/x-sh")
        .with_mime(MagicOffset::At(0), "#!/bin/sh\n".as_bytes_vec(), "application/x-sh")
        .with_mime(MagicOffset::At(0), vec![0x37u8, 0x7au8, 0xbcu8, 0xafu8, 0x27u8, 0x1cu8], "application/x-7z-compressed")
        .with_nested(MagicOffset::At(0), "<?xml".as_bytes_vec(), Some("text/xml"), xml_table())
        .with_mime(MagicOffset::At(0), "<!DOCTYPE html".as_bytes_vec(), "text/html")
        .with_mime(MagicOffset::At(0), "<html".as_bytes_vec(), "text/html")
        .with_mime(MagicOffset::At(0), "<svg".as_bytes_vec(), "image/svg+xml")
        .with_mime(MagicOffset::At(0), "BZh".as_bytes_vec(), "application/x-bzip2")
        .with_mime(MagicOffset::At(0), "GIF87a".as_bytes_vec(), "image/gif")
        .with_mime(MagicOffset::At(0), "GIF89a".as_bytes_vec(), "image/gif")
        .with_mime(MagicOffset::At(0), "I I".as_bytes_vec(), "image/tiff")
        .with_mime(MagicOffset::At(0), "ID3".as_bytes_vec(), "audio/mp3")
        .with_mime(MagicOffset::At(0), vec![0x49u8, 0x49u8, 0x2au8, 0x00u8], "image/tiff")
        .with_mime(MagicOffset::At(0), vec![0x4du8, 0x4du8, 0x00u8, 0x2au8], "image/tiff")
        .with_mime(MagicOffset::At(0), vec![0x4du8, 0x4du8, 0x00u8, 0x2bu8], "image/tiff")
        .with_mime(MagicOffset::At(0), "MThd".as_bytes_vec(), "audio/midi")
        .with_mime(MagicOffset::At(0), vec![0x4fu8, 0x67u8, 0x67u8, 0x53u8, 0x00u8, 0x02u8, 0x00u8, 0x00u8, 0x00u8, 0x00u8, 0x00u8, 0x00u8, 0x00u8, 0x00u8], "application/ogg")
        .with_mime(MagicOffset::At(0), vec![0x50u8, 0x4bu8, 0x03u8, 0x04u8], "application/ogg")
        .with_nested(MagicOffset::At(0), "RIFF".as_bytes_vec(), None, riff_table())
        .with_mime(MagicOffset::At(0), vec![0x52u8, 0x61u8, 0x72u8, 0x21u8, 0x1au8, 0x07u8], "application/vnd.rar")
        .with_mime(MagicOffset::At(0), "gimp xcf ".as_bytes_vec(), "image/x-xcf")
        .with_mime(MagicOffset::At(0), "icns".as_bytes_vec(), "image/x-icns")
        .with_mime(MagicOffset::At(0), vec![0x74u8, 0x72u8, 0x75u8, 0x65u8, 0x00u8], "font/ttf")
        .with_mime(MagicOffset::At(0), "wOFF".as_bytes_vec(), "font/woff")
        .with_mime(MagicOffset::At(0), "wOF2".as_bytes_vec(), "font/woff2")
        .with_mime(MagicOffset::At(0), "%PDF-".as_bytes_vec(), "application/pdf")
        .with_mime(MagicOffset::At(0), vec![0x25u8, 0x50u8, 0x4eu8, 0x47u8, 0x0du8, 0x0au8, 0x1au8, 0x0au8], "image/png")
        .with_mime(MagicOffset::At(0), vec![0xffu8, 0xd8u8], "image/jpeg")
        .with_nested(MagicOffset::At(4), "ftyp".as_bytes_vec(), None, ftyp_table())
        .with_mime(MagicOffset::At(4), "moov".as_bytes_vec(), "video/quicktime")
        .with_mime(MagicOffset::At(257), "ustar".as_bytes_vec(), "application/x-tar")
}

/// Detects the content type of a file from its leading bytes.
pub fn detect_mime_type_magic(data: &[u8]) -> (res: Option<&'static str>)
    ensures
        opt_str_view(res) == lookup_magic_spec(magic_entries(), data@),
{
    let table = magic_table();
    lookup_magic(&table, data)
}

/// The content type of a file: what the extension of its path stands for,
/// and where that is nothing, what its leading bytes show.
pub open spec fn mime_spec(path: Seq<u8>, data: Seq<u8>) -> Option<Seq<char>> {
    match path_mime(path) {
        Some(mime) => Some(mime),
        None => lookup_magic_spec(magic_entries(), data),
    }
}

/// Detects the content type of a file from the extension of its path, or,
/// where the extension tells nothing, from its leading bytes.
pub fn detect_mime_type(path: &str, data: &[u8]) -> (res: Option<&'static str>)
    ensures
        opt_str_view(res) == mime_spec(path.spec_bytes(), data@),
{
    let ext = detect_mime_type_ext(path);
    if ext.is_some() {
        return ext;
    }
    detect_mime_type_magic(data)
}

} // verus!
