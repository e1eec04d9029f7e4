//! Generation parameters inside PNG images: an 8-bit RGB image is written
//! with two Latin-1 text chunks, "parameters" (the text other image tools
//! read) and "rzem-metadata" (the parameters as JSON), and reading picks
//! the JSON chunk where it parses, else the first readable "parameters"
//! chunk.
use vstd::prelude::*;
use super::metadata::{
    lemma_parameters_roundtrip, lemma_read_from_unique, parameters_text, read_from, readable, same_fields, scan_lines,
    settings_text, ImageMetadata,
};
use crate::lines::lines_of;
use crate::text::str_equal;

verus! {

/// A Latin-1 text chunk of a PNG image.
#[derive(Debug, Clone)]
pub struct TextChunk {
    pub keyword: String,
    pub text: String,
}

/// The keyword and text of each chunk.
pub open spec fn chunk_views(chunks: Seq<TextChunk>) -> Seq<(Seq<char>, Seq<char>)> {
    chunks.map_values(|c: TextChunk| (c.keyword@, c.text@))
}

/// Every character of `s` is a Latin-1 character.
pub open spec fn latin1(s: Seq<char>) -> bool {
    forall|i: int| 0 <= i < s.len() ==> (#[trigger] s[i] as u32) < 256
}

/// A text chunk the PNG encoder writes: a Latin-1 keyword of 1 to 79
/// characters and a Latin-1 text.
pub open spec fn chunk_encodable(c: (Seq<char>, Seq<char>)) -> bool {
    &&& 1 <= c.0.len() <= 79
    &&& latin1(c.0)
    &&& latin1(c.1)
}

/// The inputs on which the PNG encoder writes an 8-bit RGB image: a
/// non-empty size, three bytes per pixel, and encodable text chunks.
pub open spec fn png_encodable(
    len: nat,
    width: u32,
    height: u32,
    chunks: Seq<(Seq<char>, Seq<char>)>,
) -> bool {
    &&& width > 0
    &&& height > 0
    &&& len == 3 * width * height
    &&& forall|i: int| 0 <= i < chunks.len() ==> chunk_encodable(#[trigger] chunks[i])
}

/// The bytes of the chunks' data: each keyword, a separator and the text
/// (one byte per Latin-1 character).
pub open spec fn text_chunk_bytes(chunks: Seq<(Seq<char>, Seq<char>)>) -> nat
    decreases chunks.len(),
{
    if chunks.len() == 0 {
        0
    } else {
        text_chunk_bytes(chunks.drop_last()) + chunks.last().0.len() + 1 + chunks.last().1.len()
    }
}

/// A file the PNG decoder reads back within its default allocation limit
/// (64 MiB, which the chunk buffers, the parsed texts and one row of
/// pixels draw on), with room to spare: rows of at most 2^20 pixels and
/// text chunks of at most 16 MiB in all; and no keyword holding a NUL (the
/// decoder ends a keyword at the first NUL).
pub open spec fn decoder_reads_back(width: u32, chunks: Seq<(Seq<char>, Seq<char>)>) -> bool {
    &&& width <= 1048576
    &&& text_chunk_bytes(chunks) <= 16777216
    &&& forall|i: int| 0 <= i < chunks.len() ==> !(#[trigger] chunks[i]).0.contains('\0')
}

/// What the `png` encoder makes of an 8-bit RGB image with these text
/// chunks: the file's bytes, or the message of the error it raised.
pub uninterp spec fn png_rgb8_encoding(
    rgb: Seq<u8>,
    width: u32,
    height: u32,
    chunks: Seq<(Seq<char>, Seq<char>)>,
) -> Result<Seq<u8>, Seq<char>>;

/// What the `png` decoder reads of a file's Latin-1 text chunks, in the
/// order of the file, up to its image data; or the message of the error it
/// raised.
pub uninterp spec fn png_latin1_text(png: Seq<u8>) -> Result<Seq<(Seq<char>, Seq<char>)>, Seq<char>>;

/// Decoding `png` gives the text chunks `chunks`.
pub open spec fn decodes_to(png: Seq<u8>, chunks: Seq<(Seq<char>, Seq<char>)>) -> bool {
    png_latin1_text(png) == Result::<Seq<(Seq<char>, Seq<char>)>, Seq<char>>::Ok(chunks)
}

/// The view of a byte result.
pub open spec fn bytes_result(r: Result<Vec<u8>, String>) -> Result<Seq<u8>, Seq<char>> {
    match r {
        Ok(b) => Ok(b@),
        Err(e) => Err(e@),
    }
}

/// The view of a chunk result.
pub open spec fn chunks_result(r: Result<Vec<TextChunk>, String>) -> Result<
    Seq<(Seq<char>, Seq<char>)>,
    Seq<char>,
> {
    match r {
        Ok(v) => Ok(chunk_views(v@)),
        Err(e) => Err(e@),
    }
}

/// Writes an 8-bit RGB PNG with `png::Encoder` (`set_color(Rgb)`,
/// `set_depth(Eight)`, `add_text_chunk` for each chunk in order,
/// `write_header`, `write_image_data`). The result is what
/// `png_rgb8_encoding` names; the encoder succeeds exactly on the inputs of
/// `png_encodable` (the header refuses a zero width or height and a text
/// chunk whose keyword or text is not Latin-1 or whose keyword is empty or
/// longer than 79; the image data must be three bytes per pixel).
/// The size must not overflow the encoder's row arithmetic. The text
/// chunks are written as `tEXt` chunks before the image data, each byte
/// the Latin-1 code of a character; `png::Decoder::read_info` parses them
/// back, in order, where `decoder_reads_back` holds.
#[verifier::external_body]
fn encode_rgb8_png(rgb: &[u8], width: u32, height: u32, chunks: &Vec<TextChunk>) -> (r: Result<Vec<u8>, String>)
    requires
        (3 * width + 1) * height <= usize::MAX,
    ensures
        bytes_result(r) == png_rgb8_encoding(rgb@, width, height, chunk_views(chunks@)),
        r is Ok <==> png_encodable(rgb@.len(), width, height, chunk_views(chunks@)),
        r matches Ok(b) ==> (decoder_reads_back(width, chunk_views(chunks@)) ==> decodes_to(
            b@,
            chunk_views(chunks@),
        )),
{
    let mut out: Vec<u8> = Vec::new();
    {
        let mut encoder = png::Encoder::new(&mut out, width, height);
        encoder.set_color(png::ColorType::Rgb);
        encoder.set_depth(png::BitDepth::Eight);
        for c in chunks.iter() {
            encoder.add_text_chunk(c.keyword.clone(), c.text.clone()).map_err(|e| e.to_string())?;
        }
        let mut writer = encoder.write_header().map_err(|e| e.to_string())?;
        writer.write_image_data(rgb).map_err(|e| e.to_string())?;
    }
    Ok(out)
}

/// Reads a PNG's Latin-1 text chunks with `png::Decoder` (`read_info`, then
/// `info().uncompressed_latin1_text`). The result is what
/// `png_latin1_text` names.
#[verifier::external_body]
fn decode_png_text(png_data: &[u8]) -> (r: Result<Vec<TextChunk>, String>)
    ensures
        chunks_result(r) == png_latin1_text(png_data@),
{
    let reader = png::Decoder::new(std::io::Cursor::new(png_data)).read_info().map_err(|e| e.to_string())?;
    Ok(
        reader.info().uncompressed_latin1_text.iter().map(
            |c| TextChunk { keyword: c.keyword.clone(), text: c.text.clone() },
        ).collect(),
    )
}

/// The two chunks written with an image: the parameters text, then the
/// JSON form of the parameters.
pub open spec fn metadata_chunks(parameters: Seq<char>, json: Seq<char>) -> Seq<(Seq<char>, Seq<char>)> {
    seq![("parameters"@, parameters), ("rzem-metadata"@, json)]
}

/// Encodes RGB data as PNG with the metadata embedded as text chunks:
/// "parameters" holds `metadata.to_parameters_string()` and "rzem-metadata"
/// holds `metadata_json`, the metadata serialised as JSON. Decoding the
/// file gives these two chunks back where the texts and the width are
/// within the decoder's limits.
pub fn encode_png_with_metadata(
    rgb_data: &[u8],
    width: u32,
    height: u32,
    metadata: &ImageMetadata,
    metadata_json: String,
) -> (r: Result<Vec<u8>, String>)
    requires
        (3 * width + 1) * height <= usize::MAX,
    ensures
        bytes_result(r) == png_rgb8_encoding(
            rgb_data@,
            width,
            height,
            metadata_chunks(parameters_text(*metadata), metadata_json@),
        ),
        r is Ok <==> png_encodable(
            rgb_data@.len(),
            width,
            height,
            metadata_chunks(parameters_text(*metadata), metadata_json@),
        ),
        r matches Ok(b) ==> (width <= 1048576 && text_chunk_bytes(
            metadata_chunks(parameters_text(*metadata), metadata_json@),
        ) <= 16777216 ==> decodes_to(b@, metadata_chunks(parameters_text(*metadata), metadata_json@))),
{
    let parameters = metadata.to_parameters_string();
    let mut chunks: Vec<TextChunk> = Vec::new();
    chunks.push(TextChunk { keyword: String::from_str("parameters"), text: parameters });
    chunks.push(TextChunk { keyword: String::from_str("rzem-metadata"), text: metadata_json });
    proof {
        reveal_strlit("parameters");
        reveal_strlit("rzem-metadata");
        let c = metadata_chunks(parameters_text(*metadata), metadata_json@);
        assert(chunk_views(chunks@) =~= c);
        assert forall|i: int| 0 <= i < c.len() implies !(#[trigger] c[i]).0.contains('\0') by {
            if c[i].0.contains('\0') {
                let k = choose|k: int| 0 <= k < c[i].0.len() && c[i].0[k] == '\0';
                assert(c[i].0[k] != '\0');
            }
        }
    }
    encode_rgb8_png(rgb_data, width, height, &chunks)
}

/// The Latin-1 text chunks of a PNG file, in order, or the decoder's error.
pub fn png_text_chunks(png_data: &[u8]) -> (r: Result<Vec<TextChunk>, String>)
    ensures
        chunks_result(r) == png_latin1_text(png_data@),
{
    decode_png_text(png_data)
}

/// Chunk `i` is a JSON metadata chunk whose text parsed.
pub open spec fn json_pick(
    chunks: Seq<(Seq<char>, Seq<char>)>,
    parsed: Seq<Option<ImageMetadata>>,
    i: int,
) -> bool {
    chunks[i].0 == "rzem-metadata"@ && parsed[i] is Some
}

/// Chunk `i` is a parameters chunk with a settings line.
pub open spec fn parameters_pick(chunks: Seq<(Seq<char>, Seq<char>)>, i: int) -> bool {
    chunks[i].0 == "parameters"@ && scan_lines(lines_of(chunks[i].1)).2 is Some
}

/// What reading metadata from text chunks gives, `parsed[i]` being what
/// parsing the text of `chunks[i]` as JSON metadata gave: the first
/// "rzem-metadata" chunk that parsed, else what the first "parameters"
/// chunk with a settings line reads to, else nothing.
pub open spec fn picked_metadata(
    c: Seq<(Seq<char>, Seq<char>)>,
    p: Seq<Option<ImageMetadata>>,
    r: Option<ImageMetadata>,
) -> bool {
    if exists|i: int| 0 <= i < c.len() && json_pick(c, p, i) {
        exists|i: int|
            0 <= i < c.len() && json_pick(c, p, i) && (forall|k: int| 0 <= k < i ==> !json_pick(c, p, k))
                && r == p[i]
    } else if exists|i: int| 0 <= i < c.len() && parameters_pick(c, i) {
        exists|i: int|
            0 <= i < c.len() && parameters_pick(c, i) && (forall|k: int|
                0 <= k < i ==> !parameters_pick(c, k)) && (r matches Some(m) && read_from(
                m,
                c[i].1,
                scan_lines(lines_of(c[i].1)).2->Some_0,
            ))
    } else {
        r is None
    }
}

/// Picks the metadata of an image from its text chunks, given for each
/// chunk what parsing its text as JSON metadata gave (`parsed[i]` for
/// `chunks[i]`): the first "rzem-metadata" chunk that parsed, else what
/// the first "parameters" chunk with a settings line reads to, else
/// nothing.
pub fn metadata_from_text_chunks(chunks: &Vec<TextChunk>, parsed: Vec<Option<ImageMetadata>>) -> (r: Option<
    ImageMetadata,
>)
    requires
        parsed@.len() == chunks@.len(),
    ensures
        picked_metadata(chunk_views(chunks@), parsed@, r),
{
    let ghost c = chunk_views(chunks@);
    let ghost p = parsed@;
    let mut pending = parsed;
    let n = chunks.len();
    let mut i: usize = 0;
    while i < n
        invariant
            n == chunks@.len(),
            pending@ == p,
            p == parsed@,
            p.len() == n,
            c == chunk_views(chunks@),
            i <= n,
            forall|k: int| 0 <= k < i ==> !json_pick(c, p, k),
        decreases n - i,
    {
        let is_json = str_equal(chunks[i].keyword.as_str(), "rzem-metadata");
        proof {
            reveal_strlit("rzem-metadata");
            assert(c[i as int].0 == chunks@[i as int].keyword@);
        }
        if is_json && pending[i].is_some() {
            assert(json_pick(c, p, i as int));
            let found = pending.remove(i);
            assert(found == p[i as int]);
            return found;
        }
        i = i + 1;
    }
    let mut j: usize = 0;
    while j < n
        invariant
            n == chunks@.len(),
            p.len() == n,
            p == parsed@,
            c == chunk_views(chunks@),
            j <= n,
            forall|k: int| 0 <= k < n ==> !json_pick(c, p, k),
            forall|k: int| 0 <= k < j ==> !parameters_pick(c, k),
        decreases n - j,
    {
        let is_parameters = str_equal(chunks[j].keyword.as_str(), "parameters");
        proof {
            reveal_strlit("parameters");
            assert(c[j as int].0 == chunks@[j as int].keyword@);
            assert(c[j as int].1 == chunks@[j as int].text@);
        }
        if is_parameters {
            let read = ImageMetadata::from_parameters_string(chunks[j].text.as_str());
            if read.is_some() {
                assert(parameters_pick(c, j as int));
                return read;
            }
        }
        j = j + 1;
    }
    None
}

/// Reading back the chunks written with an image gives the metadata parsed
/// from the JSON chunk where that parsed; where it did not, it gives what
/// the parameters text reads to, which holds the metadata written, field by
/// field, where every part reads back as written.
pub proof fn lemma_metadata_chunks_read_back(
    m: ImageMetadata,
    json: Seq<char>,
    parsed: Seq<Option<ImageMetadata>>,
    r: Option<ImageMetadata>,
)
    requires
        parsed.len() == 2,
        picked_metadata(metadata_chunks(parameters_text(m), json), parsed, r),
    ensures
        parsed[1] is Some ==> r == parsed[1],
        parsed[1] is None && readable(m) ==> (r matches Some(x) && same_fields(x, m)),
{
    reveal_strlit("parameters");
    reveal_strlit("rzem-metadata");
    let c = metadata_chunks(parameters_text(m), json);
    assert(c[0].0 != "rzem-metadata"@) by {
        assert(c[0].0.len() != "rzem-metadata"@.len());
    }
    assert(!json_pick(c, parsed, 0));
    if parsed[1] is Some {
        assert(json_pick(c, parsed, 1));
    } else {
        assert(!json_pick(c, parsed, 1));
        if readable(m) {
            lemma_parameters_roundtrip(m);
            assert(parameters_pick(c, 0));
            let x = r->Some_0;
            lemma_read_from_unique(x, m, parameters_text(m), settings_text(m));
        }
    }
}

} // verus!
