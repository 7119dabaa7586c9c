//! EXIF metadata as text: what was read from a file, looked up and laid out for reading.

use vstd::prelude::*;
use crate::text::{
    decimal, join_lines, join_strings, join_with_newlines, joined, lemma_views_push,
    all_ascii, lower, lowercase_text, push_chars, push_decimal, trim, trimmed_text,
    unicode_lower, views,
};

verus! {

/// One field of EXIF metadata.
#[derive(Debug, Clone)]
pub struct ExifField {
    pub tag: String,
    pub ifd: String,
    pub value: String,
    pub description: Option<String>,
}

/// The EXIF metadata of one image: every field, and the common ones by name.
#[derive(Debug, Clone)]
pub struct ExifData {
    pub fields: Vec<ExifField>,
    pub has_exif: bool,
    pub camera_make: Option<String>,
    pub camera_model: Option<String>,
    pub date_time: Option<String>,
    pub exposure_time: Option<String>,
    pub f_number: Option<String>,
    pub iso: Option<String>,
    pub focal_length: Option<String>,
    pub gps_latitude: Option<String>,
    pub gps_longitude: Option<String>,
    pub image_width: Option<u32>,
    pub image_height: Option<u32>,
    pub orientation: Option<u16>,
    pub software: Option<String>,
    pub artist: Option<String>,
    pub copyright: Option<String>,
}

impl Default for ExifData {
    /// The metadata of an image that has none.
    fn default() -> (data: ExifData)
        ensures
            !data.has_exif,
            data.fields@.len() == 0,
            data.camera_make is None,
            data.camera_model is None,
            data.date_time is None,
            data.exposure_time is None,
            data.f_number is None,
            data.iso is None,
            data.focal_length is None,
            data.gps_latitude is None,
            data.gps_longitude is None,
            data.image_width is None,
            data.image_height is None,
            data.orientation is None,
            data.software is None,
            data.artist is None,
            data.copyright is None,
    {
        ExifData {
            fields: Vec::new(),
            has_exif: false,
            camera_make: None,
            camera_model: None,
            date_time: None,
            exposure_time: None,
            f_number: None,
            iso: None,
            focal_length: None,
            gps_latitude: None,
            gps_longitude: None,
            image_width: None,
            image_height: None,
            orientation: None,
            software: None,
            artist: None,
            copyright: None,
        }
    }
}

/// Whether the tag of `field` is `tag_name`, the case of letters aside: whether the
/// two have the same lower-case form.
pub open spec fn tag_matches(field: ExifField, tag_name: Seq<char>) -> bool {
    unicode_lower(field.tag@) == unicode_lower(tag_name)
}

/// What `tag_matches` comes to for texts of ASCII characters, whose lower-case forms
/// are known letter by letter.
pub open spec fn ascii_tag_matches(field: ExifField, tag_name: Seq<char>) -> bool {
    lower(field.tag@) == lower(tag_name)
}

/// Whether the name and the tag of every field are texts of ASCII characters.
pub open spec fn ascii_tags(fields: Seq<ExifField>, tag_name: Seq<char>) -> bool {
    all_ascii(tag_name) && forall|j: int| 0 <= j < fields.len() ==> all_ascii(
        (#[trigger] fields[j]).tag@,
    )
}

fn copy_text(s: &Option<String>) -> (out: Option<String>)
    ensures
        out == *s,
{
    match s {
        Some(t) => Some(t.clone()),
        None => None,
    }
}

fn copy_field(f: &ExifField) -> (out: ExifField)
    ensures
        out == *f,
{
    ExifField {
        tag: f.tag.clone(),
        ifd: f.ifd.clone(),
        value: f.value.clone(),
        description: copy_text(&f.description),
    }
}

/// The first field of `data` whose tag is `tag_name`, the case of letters aside.
pub fn get_exif_field(data: &ExifData, tag_name: &str) -> (found: Option<ExifField>)
    ensures
        found matches Some(f) ==> exists|i: int|
            0 <= i < data.fields@.len() && f == data.fields@[i] && tag_matches(
                data.fields@[i],
                tag_name@,
            ) && forall|j: int| 0 <= j < i ==> !tag_matches(#[trigger] data.fields@[j], tag_name@),
        found is None ==> forall|j: int|
            0 <= j < data.fields@.len() ==> !tag_matches(#[trigger] data.fields@[j], tag_name@),
        ascii_tags(data.fields@, tag_name@) ==> (found matches Some(f) ==> exists|i: int|
            0 <= i < data.fields@.len() && f == data.fields@[i] && ascii_tag_matches(
                data.fields@[i],
                tag_name@,
            ) && forall|j: int|
                0 <= j < i ==> !ascii_tag_matches(#[trigger] data.fields@[j], tag_name@)),
        ascii_tags(data.fields@, tag_name@) ==> (found is None ==> forall|j: int|
            0 <= j < data.fields@.len() ==> !ascii_tag_matches(
                #[trigger] data.fields@[j],
                tag_name@,
            )),
{
    let wanted = lowercase_text(tag_name);
    let mut i: usize = 0;
    while i < data.fields.len()
        invariant
            i <= data.fields@.len(),
            wanted@ == unicode_lower(tag_name@),
            all_ascii(tag_name@) ==> wanted@ == lower(tag_name@),
            forall|j: int| 0 <= j < i ==> !tag_matches(#[trigger] data.fields@[j], tag_name@),
            ascii_tags(data.fields@, tag_name@) ==> forall|j: int|
                0 <= j < i ==> !ascii_tag_matches(#[trigger] data.fields@[j], tag_name@),
        decreases data.fields.len() - i,
    {
        let tag = lowercase_text(data.fields[i].tag.as_str());
        if tag == wanted {
            return Some(copy_field(&data.fields[i]));
        }
        i = i + 1;
    }
    None
}

/// The value that a lookup table built from `fields` in order holds for `tag`: that of
/// the last field with this tag.
pub open spec fn last_value(fields: Seq<ExifField>, tag: Seq<char>) -> Option<Seq<char>>
    decreases fields.len(),
{
    if fields.len() == 0 {
        None
    } else if fields.last().tag@ == tag {
        Some(fields.last().value@)
    } else {
        last_value(fields.drop_last(), tag)
    }
}

/// The value that the list of pairs `entries` holds for `tag`, if any.
pub open spec fn entry_value(entries: Seq<(String, String)>, tag: Seq<char>) -> Option<Seq<char>>
    decreases entries.len(),
{
    if entries.len() == 0 {
        None
    } else if entries.last().0@ == tag {
        Some(entries.last().1@)
    } else {
        entry_value(entries.drop_last(), tag)
    }
}

/// Whether no two of the pairs have the same tag.
pub open spec fn distinct_tags(entries: Seq<(String, String)>) -> bool {
    forall|i: int, j: int|
        0 <= i < j < entries.len() ==> (#[trigger] entries[i]).0@ != (#[trigger] entries[j]).0@
}

proof fn lemma_entry_update(entries: Seq<(String, String)>, k: int, pair: (String, String), tag: Seq<char>)
    requires
        0 <= k < entries.len(),
        entries[k].0@ == pair.0@,
        distinct_tags(entries),
    ensures
        distinct_tags(entries.update(k, pair)),
        entry_value(entries.update(k, pair), tag) == if tag == pair.0@ {
            Some(pair.1@)
        } else {
            entry_value(entries, tag)
        },
    decreases entries.len(),
{
    let updated = entries.update(k, pair);
    assert forall|i: int, j: int| 0 <= i < j < updated.len() implies (#[trigger] updated[i]).0@ != (
    #[trigger] updated[j]).0@ by {
        assert(entries[i].0@ != entries[j].0@);
    }
    let n = entries.len() - 1;
    if k == n {
        assert(updated.drop_last() =~= entries.drop_last());
        if tag != pair.0@ {
        }
    } else {
        assert(updated.drop_last() =~= entries.drop_last().update(k, pair));
        assert(distinct_tags(entries.drop_last())) by {
            assert forall|i: int, j: int| 0 <= i < j < entries.drop_last().len() implies (
            #[trigger] entries.drop_last()[i]).0@ != (#[trigger] entries.drop_last()[j]).0@ by {
                assert(entries[i].0@ != entries[j].0@);
            }
        }
        lemma_entry_update(entries.drop_last(), k, pair, tag);
        assert(entries[k].0@ != entries[n].0@);
    }
}

proof fn lemma_entry_absent(entries: Seq<(String, String)>, tag: Seq<char>)
    requires
        forall|i: int| 0 <= i < entries.len() ==> (#[trigger] entries[i]).0@ != tag,
    ensures
        entry_value(entries, tag) is None,
    decreases entries.len(),
{
    if entries.len() > 0 {
        assert(entries.last() == entries[entries.len() - 1]);
        assert forall|i: int| 0 <= i < entries.drop_last().len() implies (
        #[trigger] entries.drop_last()[i]).0@ != tag by {
            assert(entries[i].0@ != tag);
        }
        lemma_entry_absent(entries.drop_last(), tag);
    }
}

/// The fields of `data` as a lookup table from tag to value, held as a list of pairs
/// without two of the same tag. Of several fields with one tag the last gives the
/// value.
pub fn get_exif_map(data: &ExifData) -> (entries: Vec<(String, String)>)
    ensures
        distinct_tags(entries@),
        forall|tag: Seq<char>|
            #[trigger] entry_value(entries@, tag) == last_value(data.fields@, tag),
{
    let mut entries: Vec<(String, String)> = Vec::new();
    let mut i: usize = 0;
    while i < data.fields.len()
        invariant
            i <= data.fields@.len(),
            distinct_tags(entries@),
            forall|tag: Seq<char>|
                #[trigger] entry_value(entries@, tag) == last_value(
                    data.fields@.take(i as int),
                    tag,
                ),
        decreases data.fields.len() - i,
    {
        let field = &data.fields[i];
        let pair: (String, String) = (field.tag.clone(), field.value.clone());
        let ghost before = entries@;
        proof {
            let upto = data.fields@.take(i + 1);
            assert(upto.drop_last() =~= data.fields@.take(i as int));
            assert(upto.last() == data.fields@[i as int]);
        }
        let mut k: usize = 0;
        let mut found: bool = false;
        while k < entries.len() && !found
            invariant
                k <= entries@.len(),
                entries@ == before,
                pair.0@ == field.tag@,
                found ==> k < entries@.len() && entries@[k as int].0@ == pair.0@,
                forall|j: int| 0 <= j < k && !found ==> (#[trigger] entries@[j]).0@ != pair.0@,
            decreases entries.len() - k + if found { 0int } else { 1int },
        {
            if entries[k].0 == pair.0 {
                found = true;
            } else {
                k = k + 1;
            }
        }
        if found {
            proof {
                assert forall|tag: Seq<char>| #[trigger]
                    entry_value(before.update(k as int, pair), tag) == last_value(
                        data.fields@.take(i + 1),
                        tag,
                    ) by {
                    lemma_entry_update(before, k as int, pair, tag);
                    assert(entry_value(before, tag) == last_value(
                        data.fields@.take(i as int),
                        tag,
                    ));
                }
                lemma_entry_update(before, k as int, pair, pair.0@);
            }
            entries.set(k, pair);
        } else {
            proof {
                lemma_entry_absent(before, pair.0@);
                let after = before.push(pair);
                assert(after.drop_last() =~= before);
                assert forall|tag: Seq<char>| #[trigger]
                    entry_value(after, tag) == last_value(data.fields@.take(i + 1), tag) by {
                    assert(entry_value(before, tag) == last_value(
                        data.fields@.take(i as int),
                        tag,
                    ));
                }
                assert forall|a: int, b: int| 0 <= a < b < after.len() implies (
                #[trigger] after[a]).0@ != (#[trigger] after[b]).0@ by {
                    if b < before.len() {
                        assert(before[a].0@ != before[b].0@);
                    } else {
                        assert(before[a].0@ != pair.0@);
                    }
                }
            }
            entries.push(pair);
        }
        i = i + 1;
    }
    assert(data.fields@.take(data.fields@.len() as int) =~= data.fields@);
    entries
}

/// The line for a value that may be absent: none if it is, else the label and the
/// value, without the whitespace around it if `stripped`.
pub open spec fn optional_line(label: Seq<char>, value: Option<String>, stripped: bool) -> Seq<
    Seq<char>,
> {
    match value {
        Some(v) => seq![
            label + if stripped {
                trim(v@)
            } else {
                v@
            },
        ],
        None => Seq::empty(),
    }
}

/// The lines on where the picture was taken, if anything is known of it.
pub open spec fn gps_lines(data: ExifData) -> Seq<Seq<char>> {
    if data.gps_latitude is Some || data.gps_longitude is Some {
        seq![Seq::<char>::empty(), "GPS Information:"@] + optional_line(
            "  Latitude: "@,
            data.gps_latitude,
            false,
        ) + optional_line("  Longitude: "@, data.gps_longitude, false)
    } else {
        Seq::empty()
    }
}

/// The lines of the summary of `data`.
pub open spec fn summary_lines(data: ExifData) -> Seq<Seq<char>> {
    seq!["EXIF Information:"@, "================="@] + optional_line(
        "Camera Make: "@,
        data.camera_make,
        true,
    ) + optional_line("Camera Model: "@, data.camera_model, true) + optional_line(
        "Date/Time: "@,
        data.date_time,
        true,
    ) + optional_line("Exposure Time: "@, data.exposure_time, false) + optional_line(
        "F-Number: "@,
        data.f_number,
        false,
    ) + optional_line("ISO: "@, data.iso, false) + optional_line(
        "Focal Length: "@,
        data.focal_length,
        false,
    ) + optional_line("Software: "@, data.software, true) + gps_lines(data) + seq![
        Seq::<char>::empty(),
        "Total EXIF fields: "@ + decimal(data.fields@.len()),
    ]
}

/// The summary of `data` as text.
pub open spec fn exif_text(data: ExifData) -> Seq<char> {
    if !data.has_exif {
        "No EXIF data found"@
    } else {
        join_lines(summary_lines(data))
    }
}

fn push_line(lines: &mut Vec<String>, line: &str)
    ensures
        views(final(lines)@) == views(old(lines)@) + seq![line@],
{
    let s = String::from_str(line);
    proof {
        lemma_views_push(lines@, s);
    }
    lines.push(s);
    assert(views(lines@) =~= views(old(lines)@) + seq![line@]);
}

fn push_optional(lines: &mut Vec<String>, label: &str, value: &Option<String>, stripped: bool)
    ensures
        views(final(lines)@) == views(old(lines)@) + optional_line(label@, *value, stripped),
{
    match value {
        Some(v) => {
            let mut s = String::from_str(label);
            if stripped {
                let t = trimmed_text(v);
                push_chars(&mut s, &t);
            } else {
                s.append(v.as_str());
            }
            proof {
                lemma_views_push(lines@, s);
            }
            lines.push(s);
            assert(views(lines@) =~= views(old(lines)@) + optional_line(label@, *value, stripped));
        },
        None => {
            assert(views(lines@) =~= views(old(lines)@) + optional_line(label@, *value, stripped));
        },
    }
}

/// The summary of `data` for a person to read: the common fields that are known, one
/// a line, and the number of all fields.
pub fn format_exif_text(data: &ExifData) -> (text: String)
    ensures
        text@ == exif_text(*data),
{
    if !data.has_exif {
        return String::from_str("No EXIF data found");
    }
    let mut lines: Vec<String> = Vec::new();
    assert(views(lines@) =~= Seq::<Seq<char>>::empty());
    push_line(&mut lines, "EXIF Information:");
    push_line(&mut lines, "=================");
    push_optional(&mut lines, "Camera Make: ", &data.camera_make, true);
    push_optional(&mut lines, "Camera Model: ", &data.camera_model, true);
    push_optional(&mut lines, "Date/Time: ", &data.date_time, true);
    push_optional(&mut lines, "Exposure Time: ", &data.exposure_time, false);
    push_optional(&mut lines, "F-Number: ", &data.f_number, false);
    push_optional(&mut lines, "ISO: ", &data.iso, false);
    push_optional(&mut lines, "Focal Length: ", &data.focal_length, false);
    push_optional(&mut lines, "Software: ", &data.software, true);
    let ghost before_gps = views(lines@);
    if data.gps_latitude.is_some() || data.gps_longitude.is_some() {
        push_line(&mut lines, "");
        push_line(&mut lines, "GPS Information:");
        push_optional(&mut lines, "  Latitude: ", &data.gps_latitude, false);
        push_optional(&mut lines, "  Longitude: ", &data.gps_longitude, false);
        proof {
            reveal_strlit("");
            assert(""@ =~= Seq::<char>::empty());
        }
    }
    assert(views(lines@) =~= before_gps + gps_lines(*data));
    push_line(&mut lines, "");
    let mut total = String::from_str("Total EXIF fields: ");
    push_decimal(&mut total, data.fields.len() as u64);
    proof {
        lemma_views_push(lines@, total);
        reveal_strlit("");
        assert(""@ =~= Seq::<char>::empty());
    }
    lines.push(total);
    assert(views(lines@) =~= summary_lines(*data));
    join_with_newlines(&lines)
}

/// The line of one field in the full listing.
pub open spec fn field_line(field: ExifField) -> Seq<char> {
    "["@ + field.ifd@ + "] "@ + field.tag@ + ": "@ + field.value@ + match field.description {
        Some(d) => " ("@ + d@ + ")"@,
        None => Seq::empty(),
    }
}

/// The lines of the full listing of `data`.
pub open spec fn verbose_lines(data: ExifData) -> Seq<Seq<char>> {
    seq!["EXIF Information (All Fields):"@, "=============================="@] + Seq::new(
        data.fields@.len(),
        |i: int| field_line(data.fields@[i]),
    )
}

/// The full listing of `data` as text.
pub open spec fn exif_verbose_text(data: ExifData) -> Seq<char> {
    if !data.has_exif {
        "No EXIF data found"@
    } else {
        join_lines(verbose_lines(data))
    }
}

fn format_field(field: &ExifField) -> (line: String)
    ensures
        line@ == field_line(*field),
{
    let mut s = String::from_str("[");
    s.append(field.ifd.as_str());
    s.append("] ");
    s.append(field.tag.as_str());
    s.append(": ");
    s.append(field.value.as_str());
    match &field.description {
        Some(d) => {
            s.append(" (");
            s.append(d.as_str());
            s.append(")");
            assert(s@ =~= field_line(*field));
        },
        None => {
            assert(s@ =~= field_line(*field));
        },
    }
    s
}

/// Every field of `data` for a person to read, one a line.
pub fn format_exif_verbose(data: &ExifData) -> (text: String)
    ensures
        text@ == exif_verbose_text(*data),
{
    if !data.has_exif {
        return String::from_str("No EXIF data found");
    }
    let mut lines: Vec<String> = Vec::new();
    assert(views(lines@) =~= Seq::<Seq<char>>::empty());
    push_line(&mut lines, "EXIF Information (All Fields):");
    push_line(&mut lines, "==============================");
    let ghost header = views(lines@);
    let mut i: usize = 0;
    while i < data.fields.len()
        invariant
            i <= data.fields@.len(),
            views(lines@) == header + Seq::new(i as nat, |j: int| field_line(data.fields@[j])),
        decreases data.fields.len() - i,
    {
        let line = format_field(&data.fields[i]);
        proof {
            lemma_views_push(lines@, line);
        }
        lines.push(line);
        assert(views(lines@) =~= header + Seq::new(
            (i + 1) as nat,
            |j: int| field_line(data.fields@[j]),
        ));
        i = i + 1;
    }
    assert(views(lines@) =~= verbose_lines(*data));
    join_with_newlines(&lines)
}

/// The tags that the summary of an image's metadata draws on.
#[derive(Debug, Clone, Copy, PartialEq, Eq, Structural)]
pub enum ExifTag {
    Make,
    Model,
    DateTime,
    DateTimeOriginal,
    ExposureTime,
    FNumber,
    PhotographicSensitivity,
    FocalLength,
    GPSLatitude,
    GPSLongitude,
    PixelXDimension,
    PixelYDimension,
    Orientation,
    Software,
    Artist,
    Copyright,
    /// Any other tag.
    Other,
}

/// The value of a field, as far as the summary reads it.
#[derive(Debug, Clone)]
pub enum ExifValue {
    /// Byte strings, meant as text.
    Ascii(Vec<Vec<u8>>),
    /// 16-bit numbers.
    Short(Vec<u16>),
    /// 32-bit numbers.
    Long(Vec<u32>),
    /// A value of another type, by the text that shows it.
    Other(String),
}

/// The text that a sequence of bytes gives when it is read as UTF-8 and every invalid
/// part is replaced by U+FFFD.
pub uninterp spec fn utf8_lossy(bytes: Seq<u8>) -> Seq<char>;

/// `String::from_utf8_lossy`: the bytes as text, invalid parts replaced by U+FFFD. The
/// result depends on the bytes alone.
#[verifier::external_body]
fn lossy_text(bytes: &Vec<u8>) -> (text: String)
    ensures
        text@ == utf8_lossy(bytes@),
{
    String::from_utf8_lossy(bytes).into_owned()
}

/// The numbers of a list in decimal, as Rust shows a list: in brackets, with a comma
/// and a space between each two.
pub open spec fn number_list(numbers: Seq<nat>) -> Seq<char> {
    "["@ + joined(Seq::new(numbers.len(), |i: int| decimal(numbers[i])), ", "@) + "]"@
}

/// The text that stands for a value: for byte strings their texts with a comma and a
/// space between each two; for numbers the name of their type and their list; for a
/// value of another type the text that it came with.
pub open spec fn string_value(value: ExifValue) -> Seq<char> {
    match value {
        ExifValue::Ascii(strings) => joined(
            Seq::new(strings@.len(), |i: int| utf8_lossy(strings@[i]@)),
            ", "@,
        ),
        ExifValue::Short(values) => "Short("@ + number_list(
            Seq::new(values@.len(), |i: int| values@[i] as nat),
        ) + ")"@,
        ExifValue::Long(values) => "Long("@ + number_list(
            Seq::new(values@.len(), |i: int| values@[i] as nat),
        ) + ")"@,
        ExifValue::Other(text) => text@,
    }
}

fn decimal_string(n: u64) -> (s: String)
    ensures
        s@ == decimal(n as nat),
{
    let mut s = String::new();
    push_decimal(&mut s, n);
    s
}

/// The text that stands for a value: see `string_value`.
pub fn get_string_value(value: &ExifValue) -> (text: String)
    ensures
        text@ == string_value(*value),
{
    match value {
        ExifValue::Ascii(strings) => {
            let mut texts: Vec<String> = Vec::new();
            let mut i: usize = 0;
            while i < strings.len()
                invariant
                    i <= strings@.len(),
                    texts@.len() == i,
                    forall|j: int| 0 <= j < i ==> (#[trigger] texts@[j])@ == utf8_lossy(strings@[j]@),
                decreases strings.len() - i,
            {
                texts.push(lossy_text(&strings[i]));
                i = i + 1;
            }
            assert(views(texts@) =~= Seq::new(
                strings@.len(),
                |i: int| utf8_lossy(strings@[i]@),
            ));
            join_strings(&texts, ", ")
        },
        ExifValue::Short(values) => {
            let mut texts: Vec<String> = Vec::new();
            let mut i: usize = 0;
            while i < values.len()
                invariant
                    i <= values@.len(),
                    texts@.len() == i,
                    forall|j: int| 0 <= j < i ==> (#[trigger] texts@[j])@ == decimal(values@[j] as nat),
                decreases values.len() - i,
            {
                texts.push(decimal_string(values[i] as u64));
                i = i + 1;
            }
            let ghost numbers = Seq::new(values@.len(), |i: int| values@[i] as nat);
            assert(views(texts@) =~= Seq::new(numbers.len(), |i: int| decimal(numbers[i])));
            let list = join_strings(&texts, ", ");
            let mut s = String::from_str("Short([");
            s.append(list.as_str());
            s.append("])");
            proof {
                reveal_strlit("Short([");
                reveal_strlit("Short(");
                reveal_strlit("[");
                reveal_strlit("])");
                reveal_strlit("]");
                reveal_strlit(")");
                assert(s@ =~= string_value(*value));
            }
            s
        },
        ExifValue::Long(values) => {
            let mut texts: Vec<String> = Vec::new();
            let mut i: usize = 0;
            while i < values.len()
                invariant
                    i <= values@.len(),
                    texts@.len() == i,
                    forall|j: int| 0 <= j < i ==> (#[trigger] texts@[j])@ == decimal(values@[j] as nat),
                decreases values.len() - i,
            {
                texts.push(decimal_string(values[i] as u64));
                i = i + 1;
            }
            let ghost numbers = Seq::new(values@.len(), |i: int| values@[i] as nat);
            assert(views(texts@) =~= Seq::new(numbers.len(), |i: int| decimal(numbers[i])));
            let list = join_strings(&texts, ", ");
            let mut s = String::from_str("Long([");
            s.append(list.as_str());
            s.append("])");
            proof {
                reveal_strlit("Long([");
                reveal_strlit("Long(");
                reveal_strlit("[");
                reveal_strlit("])");
                reveal_strlit("]");
                reveal_strlit(")");
                assert(s@ =~= string_value(*value));
            }
            s
        },
        ExifValue::Other(text) => text.clone(),
    }
}

/// The first number of a value that holds numbers.
pub open spec fn uint_value(value: ExifValue) -> Option<u32> {
    match value {
        ExifValue::Short(values) => if values@.len() > 0 {
            Some(values@[0] as u32)
        } else {
            None
        },
        ExifValue::Long(values) => if values@.len() > 0 {
            Some(values@[0])
        } else {
            None
        },
        _ => None,
    }
}

/// The first number of a value that holds numbers.
pub fn get_uint_value(value: &ExifValue) -> (number: Option<u32>)
    ensures
        number == uint_value(*value),
{
    match value {
        ExifValue::Short(values) => {
            if values.len() > 0 {
                Some(values[0] as u32)
            } else {
                None
            }
        },
        ExifValue::Long(values) => {
            if values.len() > 0 {
                Some(values[0])
            } else {
                None
            }
        },
        _ => None,
    }
}

/// The name of the image file directory with the given number: the first is the
/// primary image, the second its thumbnail.
pub open spec fn ifd_name_spec(number: u16) -> Seq<char> {
    if number == 0 {
        "Primary"@
    } else if number == 1 {
        "Thumbnail"@
    } else {
        "In("@ + decimal(number as nat) + ")"@
    }
}

/// The name of the image file directory with the given number.
pub fn ifd_name(number: u16) -> (name: String)
    ensures
        name@ == ifd_name_spec(number),
{
    if number == 0 {
        String::from_str("Primary")
    } else if number == 1 {
        String::from_str("Thumbnail")
    } else {
        let mut s = String::from_str("In(");
        push_decimal(&mut s, number as u64);
        s.append(")");
        s
    }
}

/// Whether `after` is `before`, or, if `set`, holds `text`.
pub open spec fn text_set(before: Option<String>, after: Option<String>, set: bool, text: Seq<char>) -> bool {
    if set {
        after matches Some(s) && s@ == text
    } else {
        after == before
    }
}

/// Takes one field into `data`: adds it to the fields and, where its tag is one that
/// the summary draws on, sets the entry of the summary. The date and time are those of
/// the first field that gives them; a width, a height or an orientation is set only by
/// a value that holds a number; of an orientation the low 16 bits are kept.
pub fn record_field(data: &mut ExifData, kind: ExifTag, field: ExifField, value: &ExifValue)
    ensures
        final(data).fields@ == old(data).fields@.push(field),
        final(data).has_exif == old(data).has_exif,
        text_set(
            old(data).camera_make,
            final(data).camera_make,
            kind == ExifTag::Make,
            string_value(*value),
        ),
        text_set(
            old(data).camera_model,
            final(data).camera_model,
            kind == ExifTag::Model,
            string_value(*value),
        ),
        text_set(
            old(data).date_time,
            final(data).date_time,
            (kind == ExifTag::DateTime || kind == ExifTag::DateTimeOriginal) && old(
                data,
            ).date_time is None,
            string_value(*value),
        ),
        text_set(
            old(data).exposure_time,
            final(data).exposure_time,
            kind == ExifTag::ExposureTime,
            field.value@,
        ),
        text_set(old(data).f_number, final(data).f_number, kind == ExifTag::FNumber, field.value@),
        text_set(
            old(data).iso,
            final(data).iso,
            kind == ExifTag::PhotographicSensitivity,
            field.value@,
        ),
        text_set(
            old(data).focal_length,
            final(data).focal_length,
            kind == ExifTag::FocalLength,
            field.value@,
        ),
        text_set(
            old(data).gps_latitude,
            final(data).gps_latitude,
            kind == ExifTag::GPSLatitude,
            field.value@,
        ),
        text_set(
            old(data).gps_longitude,
            final(data).gps_longitude,
            kind == ExifTag::GPSLongitude,
            field.value@,
        ),
        text_set(
            old(data).software,
            final(data).software,
            kind == ExifTag::Software,
            string_value(*value),
        ),
        text_set(
            old(data).artist,
            final(data).artist,
            kind == ExifTag::Artist,
            string_value(*value),
        ),
        text_set(
            old(data).copyright,
            final(data).copyright,
            kind == ExifTag::Copyright,
            string_value(*value),
        ),
        final(data).image_width == if kind == ExifTag::PixelXDimension && uint_value(*value) is Some {
            uint_value(*value)
        } else {
            old(data).image_width
        },
        final(data).image_height == if kind == ExifTag::PixelYDimension && uint_value(
            *value,
        ) is Some {
            uint_value(*value)
        } else {
            old(data).image_height
        },
        final(data).orientation == if kind == ExifTag::Orientation && uint_value(*value) is Some {
            Some((uint_value(*value)->0 % 0x1_0000) as u16)
        } else {
            old(data).orientation
        },
{
    let shown: String = field.value.clone();
    data.fields.push(field);
    match kind {
        ExifTag::Make => {
            data.camera_make = Some(get_string_value(value));
        },
        ExifTag::Model => {
            data.camera_model = Some(get_string_value(value));
        },
        ExifTag::DateTime | ExifTag::DateTimeOriginal => {
            if data.date_time.is_none() {
                data.date_time = Some(get_string_value(value));
            }
        },
        ExifTag::ExposureTime => {
            data.exposure_time = Some(shown);
        },
        ExifTag::FNumber => {
            data.f_number = Some(shown);
        },
        ExifTag::PhotographicSensitivity => {
            data.iso = Some(shown);
        },
        ExifTag::FocalLength => {
            data.focal_length = Some(shown);
        },
        ExifTag::GPSLatitude => {
            data.gps_latitude = Some(shown);
        },
        ExifTag::GPSLongitude => {
            data.gps_longitude = Some(shown);
        },
        ExifTag::PixelXDimension => {
            match get_uint_value(value) {
                Some(v) => {
                    data.image_width = Some(v);
                },
                None => {},
            }
        },
        ExifTag::PixelYDimension => {
            match get_uint_value(value) {
                Some(v) => {
                    data.image_height = Some(v);
                },
                None => {},
            }
        },
        ExifTag::Orientation => {
            match get_uint_value(value) {
                Some(v) => {
                    data.orientation = Some((v % 0x1_0000) as u16);
                },
                None => {},
            }
        },
        ExifTag::Software => {
            data.software = Some(get_string_value(value));
        },
        ExifTag::Artist => {
            data.artist = Some(get_string_value(value));
        },
        ExifTag::Copyright => {
            data.copyright = Some(get_string_value(value));
        },
        ExifTag::Other => {},
    }
}

} // verus!
