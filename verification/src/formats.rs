//! Detection and validation of uploaded 3D model files: format by
//! extension, minimal content signature per format, binary STL size check,
//! canonical storage extension and the engine's `load-model` argument.

use vstd::prelude::*;
use vstd::utf8::valid_utf8;

use crate::entities::ModelFormat;
use crate::text::{chars_of, lower_all, lowercase, split_char, split_on};

verus! {

// --- Extension ---------------------------------------------------------------

/// Format named by a lower-case extension.
pub open spec fn format_of_ext(e: Seq<char>) -> Option<ModelFormat> {
    if e == "stl"@ || e == "oltp"@ {
        Some(ModelFormat::Stl)
    } else if e == "obj"@ {
        Some(ModelFormat::Obj)
    } else if e == "3mf"@ {
        Some(ModelFormat::ThreeMf)
    } else if e == "step"@ || e == "stp"@ {
        Some(ModelFormat::Step)
    } else if e == "amf"@ || e == "xml"@ {
        Some(ModelFormat::Amf)
    } else if e == "svg"@ {
        Some(ModelFormat::Svg)
    } else if e == "drc"@ {
        Some(ModelFormat::Drc)
    } else {
        None
    }
}

/// The text after the last `.` of a file name (the whole name without one).
pub open spec fn extension_of(name: Seq<char>) -> Seq<char> {
    split_char(name, '.').last()
}

/// Format of a file name: its last extension, ASCII case ignored.
pub open spec fn spec_detect_format(name: Seq<char>) -> Option<ModelFormat> {
    format_of_ext(lower_all(extension_of(name)))
}

/// Equality of two character vectors.
pub fn same_chars(a: &Vec<char>, b: &Vec<char>) -> (r: bool)
    ensures
        r == (a@ == b@),
{
    if a.len() != b.len() {
        return false;
    }
    let mut i: usize = 0;
    while i < a.len()
        invariant
            a.len() == b.len(),
            i <= a.len(),
            forall|j: int| 0 <= j < i ==> a@[j] == b@[j],
        decreases a.len() - i,
    {
        if a[i] != b[i] {
            return false;
        }
        i = i + 1;
    }
    assert(a@ =~= b@);
    true
}

/// `v` spells the literal `lit`.
pub fn is_lit(v: &Vec<char>, lit: &str) -> (r: bool)
    ensures
        r == (v@ == lit@),
{
    let l = chars_of(lit);
    same_chars(v, &l)
}

/// Detects a model format from a file name's extension (`a.STL` → STL,
/// `g.zip.amf` → AMF, `noext` → none).
pub fn detect_format(filename: &str) -> (r: Option<ModelFormat>)
    ensures
        r == spec_detect_format(filename@),
{
    let name = chars_of(filename);
    let pieces = split_on(&name, '.');
    proof {
        crate::text::lemma_split_char_len(name@, '.');
    }
    let last = &pieces[pieces.len() - 1];
    assert(last@ == extension_of(filename@)) by {
        assert(pieces.deep_view()[pieces.len() - 1] == last.deep_view());
        assert(last.deep_view() =~= last@);
    }
    let ext = lowercase(last);
    if is_lit(&ext, "stl") || is_lit(&ext, "oltp") {
        Some(ModelFormat::Stl)
    } else if is_lit(&ext, "obj") {
        Some(ModelFormat::Obj)
    } else if is_lit(&ext, "3mf") {
        Some(ModelFormat::ThreeMf)
    } else if is_lit(&ext, "step") || is_lit(&ext, "stp") {
        Some(ModelFormat::Step)
    } else if is_lit(&ext, "amf") || is_lit(&ext, "xml") {
        Some(ModelFormat::Amf)
    } else if is_lit(&ext, "svg") {
        Some(ModelFormat::Svg)
    } else if is_lit(&ext, "drc") {
        Some(ModelFormat::Drc)
    } else {
        None
    }
}

/// Canonical storage extension of a format.
pub open spec fn spec_format_ext(format: ModelFormat) -> Seq<char> {
    match format {
        ModelFormat::Stl => "stl"@,
        ModelFormat::Obj => "obj"@,
        ModelFormat::ThreeMf => "3mf"@,
        ModelFormat::Step => "step"@,
        ModelFormat::Amf => "amf"@,
        ModelFormat::Svg => "svg"@,
        ModelFormat::Drc => "drc"@,
    }
}

/// Canonical storage extension of a format (`stl`, `3mf`, `step`, …).
pub fn format_ext(format: ModelFormat) -> (r: &'static str)
    ensures
        r@ == spec_format_ext(format),
{
    match format {
        ModelFormat::Stl => "stl",
        ModelFormat::Obj => "obj",
        ModelFormat::ThreeMf => "3mf",
        ModelFormat::Step => "step",
        ModelFormat::Amf => "amf",
        ModelFormat::Svg => "svg",
        ModelFormat::Drc => "drc",
    }
}

/// `<format>` argument of the engine worker's `load-model` command; SVG and
/// Draco are not decoded into a mesh by the worker.
pub open spec fn spec_format_arg(format: ModelFormat) -> Option<Seq<char>> {
    match format {
        ModelFormat::Svg | ModelFormat::Drc => None,
        _ => Some(spec_format_ext(format)),
    }
}

/// `load-model` format argument (`None` = no engine conversion).
pub fn format_arg(format: ModelFormat) -> (r: Option<&'static str>)
    ensures
        r.is_some() == spec_format_arg(format).is_some(),
        r.is_some() ==> r.unwrap()@ == spec_format_arg(format).unwrap(),
{
    match format {
        ModelFormat::Stl => Some("stl"),
        ModelFormat::Obj => Some("obj"),
        ModelFormat::ThreeMf => Some("3mf"),
        ModelFormat::Step => Some("step"),
        ModelFormat::Amf => Some("amf"),
        ModelFormat::Svg | ModelFormat::Drc => None,
    }
}

/// `char::to_ascii_uppercase` as a specification.
pub open spec fn upper(c: char) -> char {
    if 'a' <= c && c <= 'z' {
        ((c as u32) - 32) as char
    } else {
        c
    }
}

/// `str::to_ascii_uppercase` as a specification.
pub open spec fn upper_all(s: Seq<char>) -> Seq<char> {
    Seq::new(s.len(), |i: int| upper(s[i]))
}

proof fn lemma_last_piece(p: Seq<char>, e: Seq<char>)
    requires
        forall|i: int| 0 <= i < e.len() ==> e[i] != '.',
    ensures
        split_char(p + seq!['.'] + e, '.').last() == e,
    decreases e.len(),
{
    let s = p + seq!['.'] + e;
    if e.len() == 0 {
        assert(s.drop_last() =~= p);
        assert(s.last() == '.');
    } else {
        let e1 = e.drop_last();
        assert(s.drop_last() =~= p + seq!['.'] + e1);
        assert(s.last() == e.last());
        crate::text::lemma_split_char_len(s.drop_last(), '.');
        lemma_last_piece(p, e1);
        assert(e1.push(e.last()) =~= e);
    }
}

proof fn lemma_lower_upper(c: char)
    ensures
        crate::text::lower(upper(c)) == crate::text::lower(c),
        (upper(c) == '.') == (c == '.'),
{
    if 'a' <= c && c <= 'z' {
        assert(((c as u32) - 32) as char as u32 == (c as u32) - 32);
    }
}

/// A file named with a format's own storage extension is detected back as
/// that format, whatever the stem and whatever the ASCII case of the name.
pub proof fn law_storage_extension_detected(stem: Seq<char>, format: ModelFormat)
    ensures
        spec_detect_format(stem + "."@ + spec_format_ext(format)) == Some(format),
        spec_detect_format(upper_all(stem + "."@ + spec_format_ext(format))) == Some(format),
{
    reveal_strlit(".");
    reveal_strlit("stl");
    reveal_strlit("obj");
    reveal_strlit("3mf");
    reveal_strlit("step");
    reveal_strlit("amf");
    reveal_strlit("svg");
    reveal_strlit("drc");
    reveal_strlit("oltp");
    reveal_strlit("stp");
    reveal_strlit("xml");
    let e = spec_format_ext(format);
    assert("."@ =~= seq!['.']);
    assert forall|i: int| 0 <= i < e.len() implies e[i] != '.' && crate::text::lower(e[i]) == e[i] by {}
    lemma_last_piece(stem, e);
    assert(lower_all(e) =~= e);
    let ue = upper_all(e);
    assert forall|i: int| 0 <= i < ue.len() implies ue[i] != '.' by {
        lemma_lower_upper(e[i]);
    }
    assert(upper_all(stem + "."@ + e) =~= upper_all(stem) + seq!['.'] + ue) by {
        assert(upper('.') == '.');
    }
    lemma_last_piece(upper_all(stem), ue);
    assert forall|i: int| 0 <= i < e.len() implies lower_all(ue)[i] == e[i] by {
        lemma_lower_upper(e[i]);
    }
    assert(lower_all(ue) =~= e);
    assert(extension_of(stem + "."@ + e) == e);
    assert(extension_of(upper_all(stem + "."@ + e)) == ue);
    assert(format_of_ext(e) == Some(format)) by {
        match format {
            ModelFormat::Stl => {},
            ModelFormat::Obj => { assert("obj"@[0] != "stl"@[0] && "obj"@ != "oltp"@); },
            ModelFormat::ThreeMf => { assert("3mf"@[0] != "stl"@[0] && "3mf"@ != "oltp"@ && "3mf"@[0] != "obj"@[0]); },
            ModelFormat::Step => { assert("step"@ != "stl"@ && "step"@[0] != "oltp"@[0] && "step"@ != "obj"@ && "step"@ != "3mf"@); },
            ModelFormat::Amf => { assert("amf"@[0] != "stl"@[0] && "amf"@ != "oltp"@ && "amf"@[0] != "obj"@[0] && "amf"@[0] != "3mf"@[0] && "amf"@ != "step"@ && "amf"@[0] != "stp"@[0]); },
            ModelFormat::Svg => { assert("svg"@[1] != "stl"@[1] && "svg"@ != "oltp"@ && "svg"@[0] != "obj"@[0] && "svg"@[0] != "3mf"@[0] && "svg"@ != "step"@ && "svg"@[1] != "stp"@[1] && "svg"@[0] != "amf"@[0] && "svg"@[0] != "xml"@[0]); },
            ModelFormat::Drc => { assert("drc"@[0] != "stl"@[0] && "drc"@ != "oltp"@ && "drc"@[0] != "obj"@[0] && "drc"@[0] != "3mf"@[0] && "drc"@ != "step"@ && "drc"@[0] != "stp"@[0] && "drc"@[0] != "amf"@[0] && "drc"@[0] != "xml"@[0] && "drc"@[0] != "svg"@[0]); },
        }
    }
}

// --- Content signatures ------------------------------------------------------

/// `needle` occurs somewhere in `hay`.
pub open spec fn occurs_in(hay: Seq<u8>, needle: Seq<u8>) -> bool {
    exists|i: int| 0 <= i && i + needle.len() <= hay.len() && #[trigger] hay.subrange(i, i + needle.len()) == needle
}

/// The first `n` bytes of `b` (all of `b` if shorter).
pub open spec fn head(b: Seq<u8>, n: int) -> Seq<u8> {
    b.take(if b.len() < n { b.len() as int } else { n })
}

/// `p` is a prefix of `b`.
pub fn starts_with_bytes(b: &[u8], p: &Vec<u8>) -> (r: bool)
    ensures
        r == p@.is_prefix_of(b@),
{
    if p.len() > b.len() {
        return false;
    }
    let mut i: usize = 0;
    while i < p.len()
        invariant
            p.len() <= b.len(),
            i <= p.len(),
            forall|j: int| 0 <= j < i ==> p@[j] == b@[j],
        decreases p.len() - i,
    {
        if p[i] != b[i] {
            assert(p@[i as int] != b@.subrange(0, p@.len() as int)[i as int]);
            return false;
        }
        i = i + 1;
    }
    assert(p@ =~= b@.subrange(0, p@.len() as int));
    true
}

/// `needle` occurs in the first `limit` bytes of `b`
/// (`b[..min(len, limit)].windows(needle.len()).any(|w| w == needle)`).
pub fn contains_in_head(b: &[u8], limit: usize, needle: &Vec<u8>) -> (r: bool)
    requires
        needle.len() > 0,
    ensures
        r == occurs_in(head(b@, limit as int), needle@),
{
    let ghost h = head(b@, limit as int);
    let n = if b.len() < limit {
        b.len()
    } else {
        limit
    };
    assert(h.len() == n);
    if needle.len() > n {
        return false;
    }
    let mut i: usize = 0;
    while i <= n - needle.len()
        invariant
            needle.len() <= n <= b.len(),
            h == b@.take(n as int),
            h == head(b@, limit as int),
            i <= n - needle.len() + 1,
            forall|k: int| 0 <= k < i ==> #[trigger] h.subrange(k, k + needle.len()) != needle@,
        decreases n - i,
    {
        let mut j: usize = 0;
        let mut same = true;
        while j < needle.len()
            invariant
                i + needle.len() <= n <= b.len(),
                h == b@.take(n as int),
                j <= needle.len(),
                same == (forall|m: int| 0 <= m < j ==> b@[i + m] == needle@[m]),
            decreases needle.len() - j,
        {
            if b[i + j] != needle[j] {
                same = false;
            }
            j = j + 1;
        }
        if same {
            assert(h.subrange(i as int, i + needle.len()) =~= needle@);
            return true;
        }
        assert(h.subrange(i as int, i + needle.len()) != needle@) by {
            let m = choose|m: int| 0 <= m < needle.len() && b@[i + m] != needle@[m];
            assert(h.subrange(i as int, i + needle.len())[m] == b@[i + m]);
        }
        i = i + 1;
    }
    false
}

/// ASCII-case-insensitive equality of a byte with a lower-case ASCII letter.
pub open spec fn byte_lower(b: u8) -> u8 {
    if 65 <= b && b <= 90 {
        (b + 32) as u8
    } else {
        b
    }
}

/// `b` starts with `solid`, ASCII case ignored.
pub open spec fn spec_ascii_stl_head(b: Seq<u8>) -> bool {
    &&& b.len() >= 5
    &&& byte_lower(b[0]) == 115
    &&& byte_lower(b[1]) == 111
    &&& byte_lower(b[2]) == 108
    &&& byte_lower(b[3]) == 105
    &&& byte_lower(b[4]) == 100
}

fn lower_byte(b: u8) -> (r: u8)
    ensures
        r == byte_lower(b),
{
    if 65 <= b && b <= 90 {
        b + 32
    } else {
        b
    }
}

/// Little-endian `u32` at `off`.
pub open spec fn le_u32(b: Seq<u8>, off: int) -> u32 {
    (b[off] as u32) | ((b[off + 1] as u32) << 8u32) | ((b[off + 2] as u32) << 16u32) | ((b[off
        + 3] as u32) << 24u32)
}

/// Reads a little-endian `u32` at `off`.
pub fn read_u32(b: &[u8], off: usize) -> (r: u32)
    requires
        off + 4 <= b.len(),
    ensures
        r == le_u32(b@, off as int),
{
    (b[off] as u32) | ((b[off + 1] as u32) << 8u32) | ((b[off + 2] as u32) << 16u32) | ((b[off
        + 3] as u32) << 24u32)
}

/// Triangle count of a coherent binary STL: 80-byte header, `u32` count,
/// then exactly `count` records of 50 bytes.
pub open spec fn spec_binary_stl_count(format: ModelFormat, b: Seq<u8>) -> Option<u32> {
    if format == ModelFormat::Stl && b.len() >= 84 && 84 + 50 * (le_u32(b, 80) as int)
        == b.len() {
        Some(le_u32(b, 80))
    } else {
        None
    }
}

/// Number of triangles of a binary STL; `None` when the bytes are not a
/// coherent binary STL (ASCII STL, other format, inconsistent size).
pub fn binary_stl_triangle_count(format: ModelFormat, bytes: &[u8]) -> (r: Option<u32>)
    ensures
        r == spec_binary_stl_count(format, bytes@),
{
    if format != ModelFormat::Stl || bytes.len() < 84 {
        return None;
    }
    let count = read_u32(bytes, 80);
    let body = (count as usize).checked_mul(50);
    match body {
        None => None,
        Some(body) => match 84usize.checked_add(body) {
            None => None,
            Some(expected) => if expected == bytes.len() {
                Some(count)
            } else {
                None
            },
        },
    }
}

/// Whether the bytes are well-formed UTF-8.
fn is_utf8(bytes: &[u8]) -> (r: bool)
    ensures
        r == valid_utf8(bytes@),
{
    crate::text::utf8_str(bytes).is_some()
}

pub open spec fn zip_magic() -> Seq<u8> {
    seq![0x50u8, 0x4Bu8, 0x03u8, 0x04u8]
}

pub open spec fn draco_magic() -> Seq<u8> {
    seq![68u8, 82u8, 65u8, 67u8, 79u8]
}

pub open spec fn iso_10303() -> Seq<u8> {
    seq![73u8, 83u8, 79u8, 45u8, 49u8, 48u8, 51u8, 48u8, 51u8]
}

pub open spec fn amf_tag() -> Seq<u8> {
    seq![60u8, 97u8, 109u8, 102u8]
}

pub open spec fn xml_tag() -> Seq<u8> {
    seq![60u8, 63u8, 120u8, 109u8, 108u8]
}

pub open spec fn svg_tag() -> Seq<u8> {
    seq![60u8, 115u8, 118u8, 103u8]
}

/// Why the content of a file of the given format is rejected, if it is:
/// empty file, or a signature that does not match the format.
pub open spec fn spec_rejection(format: ModelFormat, b: Seq<u8>) -> Option<Seq<char>> {
    if b.len() == 0 {
        Some("fichier vide"@)
    } else {
        match format {
            ModelFormat::ThreeMf => if zip_magic().is_prefix_of(b) {
                None
            } else {
                Some("3MF invalide (archive ZIP attendue)"@)
            },
            ModelFormat::Step => if occurs_in(head(b, 256), iso_10303()) {
                None
            } else {
                Some("STEP invalide (en-tête ISO-10303 absent)"@)
            },
            ModelFormat::Stl => if spec_ascii_stl_head(b) || spec_binary_stl_count(format, b).is_some() {
                None
            } else {
                Some("STL invalide (ni ASCII ni binaire cohérent)"@)
            },
            ModelFormat::Obj => if valid_utf8(b) {
                None
            } else {
                Some("OBJ invalide (texte UTF-8 attendu)"@)
            },
            ModelFormat::Amf => if zip_magic().is_prefix_of(b) || occurs_in(head(b, 256), amf_tag())
                || occurs_in(head(b, 256), xml_tag()) {
                None
            } else {
                Some("AMF invalide (XML ou archive .zip.amf attendus)"@)
            },
            ModelFormat::Svg => if valid_utf8(b) && occurs_in(head(b, 512), svg_tag()) {
                None
            } else {
                Some("SVG invalide (balise <svg absente)"@)
            },
            ModelFormat::Drc => if draco_magic().is_prefix_of(b) {
                None
            } else {
                Some("Draco invalide (en-tête DRACO absent)"@)
            },
        }
    }
}

/// Minimal content check per format: rejects an empty file or one whose
/// signature does not match its declared format, with the reason.
pub fn validate_content(format: ModelFormat, bytes: &[u8]) -> (r: Result<(), &'static str>)
    ensures
        match r {
            Ok(()) => spec_rejection(format, bytes@) is None,
            Err(m) => spec_rejection(format, bytes@) == Some(m@),
        },
{
    if bytes.len() == 0 {
        return Err("fichier vide");
    }
    let zip: Vec<u8> = vec![0x50u8, 0x4Bu8, 0x03u8, 0x04u8];
    assert(zip@ =~= zip_magic());
    match format {
        ModelFormat::ThreeMf => {
            if starts_with_bytes(bytes, &zip) {
                Ok(())
            } else {
                Err("3MF invalide (archive ZIP attendue)")
            }
        },
        ModelFormat::Step => {
            let iso: Vec<u8> = vec![73u8, 83u8, 79u8, 45u8, 49u8, 48u8, 51u8, 48u8, 51u8];
            assert(iso@ =~= iso_10303());
            if contains_in_head(bytes, 256, &iso) {
                Ok(())
            } else {
                Err("STEP invalide (en-tête ISO-10303 absent)")
            }
        },
        ModelFormat::Stl => {
            let ascii = bytes.len() >= 5 && lower_byte(bytes[0]) == 115 && lower_byte(bytes[1])
                == 111 && lower_byte(bytes[2]) == 108 && lower_byte(bytes[3]) == 105
                && lower_byte(bytes[4]) == 100;
            if ascii || binary_stl_triangle_count(format, bytes).is_some() {
                Ok(())
            } else {
                Err("STL invalide (ni ASCII ni binaire cohérent)")
            }
        },
        ModelFormat::Obj => {
            if is_utf8(bytes) {
                Ok(())
            } else {
                Err("OBJ invalide (texte UTF-8 attendu)")
            }
        },
        ModelFormat::Amf => {
            let amf: Vec<u8> = vec![60u8, 97u8, 109u8, 102u8];
            let xml: Vec<u8> = vec![60u8, 63u8, 120u8, 109u8, 108u8];
            assert(amf@ =~= amf_tag());
            assert(xml@ =~= xml_tag());
            if starts_with_bytes(bytes, &zip) || contains_in_head(bytes, 256, &amf)
                || contains_in_head(bytes, 256, &xml) {
                Ok(())
            } else {
                Err("AMF invalide (XML ou archive .zip.amf attendus)")
            }
        },
        ModelFormat::Svg => {
            let svg: Vec<u8> = vec![60u8, 115u8, 118u8, 103u8];
            assert(svg@ =~= svg_tag());
            if is_utf8(bytes) && contains_in_head(bytes, 512, &svg) {
                Ok(())
            } else {
                Err("SVG invalide (balise <svg absente)")
            }
        },
        ModelFormat::Drc => {
            let drc: Vec<u8> = vec![68u8, 82u8, 65u8, 67u8, 79u8];
            assert(drc@ =~= draco_magic());
            if starts_with_bytes(bytes, &drc) {
                Ok(())
            } else {
                Err("Draco invalide (en-tête DRACO absent)")
            }
        },
    }
}

} // verus!
