use vstd::prelude::*;
use vstd::string::StringSliceAdditionalSpecFns;
use crate::database::{image_ids_of, split_image_ids, texts};
use crate::image_id::{is_valid_image_id, valid_image_id_bytes};
use crate::paths::{segments, strip_drive};
use crate::text::{
    ascii_uppercase, chars_ascii_uppercase, chars_ends_with, chars_has, chars_of, chars_replace, chars_starts_with,
    decimal, decimal_chars, ends_with, extend_chars, own, split_char, split_chars, starts_with, str_eq, string_of,
    string_of_range, trim, trim_chars,
};
use crate::webdav_types::CloudRecord;

verus! {

/// The largest file sent directly to a peer, in bytes.
pub const MAX_DIRECT_TRANSFER_FILE_SIZE: u64 = 536870912;

/// Where a received file is written while it arrives, and where it goes when complete.
#[derive(Debug, Clone)]
pub struct ReceivedFileReservation {
    pub final_path: String,
    pub temp_path: String,
}

/// What is recorded about a file received from a peer.
#[derive(Debug, Clone)]
pub struct ReceivedFileMetadata {
    pub path: String,
    pub name: String,
    pub size: u64,
    pub sha256: String,
    pub source_device_id: String,
    pub source_device_name: String,
    pub received_at: i64,
}

/// Whether `x` occurs in a list of texts.
#[verifier::opaque]
pub open spec fn text_in(v: Seq<Seq<char>>, x: Seq<char>) -> bool {
    exists|i: int| 0 <= i < v.len() && v[i] == x
}

/// The identifiers of a list that are valid image identifiers.
pub open spec fn valid_ids(ids: Seq<Seq<char>>) -> Seq<Seq<char>>
    decreases ids.len(),
{
    if ids.len() == 0 {
        Seq::empty()
    } else {
        let r = valid_ids(ids.drop_last());
        if valid_image_id_bytes(utf8_of(ids.last())) { r.push(ids.last()) } else { r }
    }
}

/// The valid image identifiers that a record names.
pub open spec fn record_image_ids(r: CloudRecord) -> Seq<Seq<char>> {
    match r.image_id {
        Some(raw) => valid_ids(image_ids_of(raw@)),
        None => Seq::empty(),
    }
}

/// The UTF-8 bytes of a text.
pub open spec fn utf8_of(s: Seq<char>) -> Seq<u8> {
    vstd::utf8::encode_utf8(s)
}

proof fn lemma_text_in_push(s: Seq<Seq<char>>, e: Seq<char>, x: Seq<char>)
    ensures
        text_in(s.push(e), x) <==> (text_in(s, x) || x == e),
{
    reveal(text_in);
    if text_in(s.push(e), x) {
        let i = choose|i: int| 0 <= i < s.push(e).len() && s.push(e)[i] == x;
        if i < s.len() {
            assert(s[i] == x);
        }
    }
    if text_in(s, x) {
        let i = choose|i: int| 0 <= i < s.len() && s[i] == x;
        assert(s.push(e)[i] == x);
    }
    if x == e {
        assert(s.push(e)[s.len() as int] == x);
    }
}

/// Whether some string of a list holds the text `x`.
#[verifier::opaque]
pub open spec fn string_in(v: Seq<String>, x: Seq<char>) -> bool {
    exists|i: int| 0 <= i < v.len() && v[i]@ == x
}

proof fn lemma_string_in_push(v: Seq<String>, e: String, x: Seq<char>)
    ensures
        string_in(v.push(e), x) <==> (string_in(v, x) || x == e@),
{
    reveal(string_in);
    if string_in(v.push(e), x) {
        let i = choose|i: int| 0 <= i < v.push(e).len() && v.push(e)[i]@ == x;
        if i < v.len() {
            assert(v[i]@ == x);
        }
    }
    if string_in(v, x) {
        let i = choose|i: int| 0 <= i < v.len() && v[i]@ == x;
        assert(v.push(e)[i]@ == x);
    }
    if x == e@ {
        assert(v.push(e)[v.len() as int]@ == x);
    }
}

proof fn lemma_string_in_index(v: Seq<String>, i: int)
    requires
        0 <= i < v.len(),
    ensures
        string_in(v, v[i]@),
{
    reveal(string_in);
}

proof fn lemma_text_in_empty(x: Seq<char>)
    ensures
        !text_in(Seq::<Seq<char>>::empty(), x),
{
    reveal(text_in);
}

fn contains_text(v: &Vec<String>, x: &String) -> (r: bool)
    ensures
        r == string_in(v@, x@),
{
    proof { reveal(string_in); }
    let mut i: usize = 0;
    while i < v.len()
        invariant
            i <= v@.len(),
            forall|j: int| 0 <= j < i ==> v@[j]@ != x@,
        decreases v.len() - i,
    {
        if str_eq(v[i].as_str(), x.as_str()) {
            proof { lemma_string_in_index(v@, i as int); }
            return true;
        }
        i = i + 1;
    }
    false
}

/// The valid image identifiers that some records name, each once.
pub fn collect_record_image_ids(records: &Vec<CloudRecord>) -> (r: Vec<String>)
    ensures
        forall|i: int, j: int| 0 <= i < r@.len() && 0 <= j < r@.len() && i != j ==> (#[trigger] r@[i])@ != (#[trigger] r@[j])@,
        forall|x: Seq<char>| string_in(r@, x) <==> exists|k: int| 0 <= k < records@.len() && #[trigger] text_in(record_image_ids(records@[k]), x),
{
    let mut out: Vec<String> = Vec::new();
    let mut k: usize = 0;
    assert forall|x: Seq<char>| #![trigger string_in(out@, x)] string_in(out@, x) <==> exists|m: int| 0 <= m < 0 && #[trigger] text_in(record_image_ids(records@[m]), x) by {
        reveal(string_in);
    }
    while k < records.len()
        invariant
            k <= records@.len(),
            forall|i: int, j: int| 0 <= i < out@.len() && 0 <= j < out@.len() && i != j ==> (#[trigger] out@[i])@ != (#[trigger] out@[j])@,
            forall|x: Seq<char>| #![trigger string_in(out@, x)] string_in(out@, x) <==> exists|m: int| 0 <= m < k && #[trigger] text_in(record_image_ids(records@[m]), x),
        decreases records.len() - k,
    {
        let ghost out0 = out@;
        match &records[k].image_id {
            Some(raw) => {
                let ids = split_image_ids(raw.as_str());
                let ghost all = image_ids_of(raw@);
                let ghost valid = valid_ids(all);
                let mut j: usize = 0;
                assert forall|x: Seq<char>| #![trigger string_in(out@, x)] string_in(out@, x) <==> (string_in(out0, x) || text_in(valid_ids(all.take(0)), x)) by {
                    assert(valid_ids(all.take(0)) =~= Seq::<Seq<char>>::empty()) by {
                        assert(all.take(0) =~= Seq::<Seq<char>>::empty());
                    }
                    lemma_text_in_empty(x);
                }
                while j < ids.len()
                    invariant
                        texts(ids@) == all,
                        valid == valid_ids(all),
                        j <= ids@.len(),
                        forall|a: int, b: int| 0 <= a < out@.len() && 0 <= b < out@.len() && a != b ==> (#[trigger] out@[a])@ != (#[trigger] out@[b])@,
                        forall|x: Seq<char>| #![trigger string_in(out@, x)] string_in(out@, x) <==> (string_in(out0, x) || text_in(valid_ids(all.take(j as int)), x)),
                    decreases ids.len() - j,
                {
                    let id = &ids[j];
                    proof {
                        let t = all.take(j + 1);
                        assert(t.drop_last() =~= all.take(j as int));
                        assert(t.last() == id@);
                    }
                    let ghost o1 = out@;
                    let valid_id = is_valid_image_id(id.as_str());
                    let present = if valid_id { contains_text(&out, id) } else { false };
                    if valid_id && !present {
                        out.push(id.clone());
                    }
                    proof {
                        let before = valid_ids(all.take(j as int));
                        let after = valid_ids(all.take(j + 1));
                        assert(after == if valid_id { before.push(id@) } else { before });
                        if valid_id && !present {
                            assert forall|a: int, b: int| 0 <= a < out@.len() && 0 <= b < out@.len() && a != b implies (#[trigger] out@[a])@ != (#[trigger] out@[b])@ by {
                                if a == o1.len() as int {
                                    lemma_string_in_index(o1, b);
                                } else if b == o1.len() as int {
                                    lemma_string_in_index(o1, a);
                                } else {
                                    assert(out@[a] == o1[a] && out@[b] == o1[b]);
                                }
                            }
                        }
                        assert forall|x: Seq<char>| #![trigger string_in(out@, x)] string_in(out@, x) <==> (string_in(out0, x) || text_in(after, x)) by {
                            lemma_text_in_push(before, id@, x);
                            lemma_string_in_push(o1, *id, x);
                            assert(string_in(o1, x) <==> (string_in(out0, x) || text_in(before, x)));
                            if valid_id && !present {
                                assert(out@ == o1.push(*id));
                            } else if valid_id {
                                assert(out@ == o1);
                                assert(string_in(o1, id@));
                            } else {
                                assert(out@ == o1);
                                assert(after == before);
                            }
                        }
                    }
                    let ghost jj = j as int;
                    j = j + 1;
                    assert(all.take(j as int) == all.take(jj + 1));
                    assert forall|x: Seq<char>| #![trigger string_in(out@, x)] string_in(out@, x) <==> (string_in(out0, x) || text_in(valid_ids(all.take(j as int)), x)) by {
                        assert(string_in(out@, x) <==> (string_in(out0, x) || text_in(valid_ids(all.take(jj + 1)), x)));
                    }
                }
                assert(all.take(ids@.len() as int) =~= all);
                assert(record_image_ids(records@[k as int]) == valid);
                assert(valid_ids(all.take(j as int)) == valid);
                assert forall|x: Seq<char>| #![trigger string_in(out@, x)] string_in(out@, x) <==> (string_in(out0, x) || text_in(record_image_ids(records@[k as int]), x)) by {
                    assert(string_in(out@, x) <==> (string_in(out0, x) || text_in(valid_ids(all.take(j as int)), x)));
                }
            },
            None => {
                assert(record_image_ids(records@[k as int]) =~= Seq::<Seq<char>>::empty());
                assert forall|x: Seq<char>| #![trigger string_in(out@, x)] string_in(out@, x) <==> (string_in(out0, x) || text_in(record_image_ids(records@[k as int]), x)) by {
                    lemma_text_in_empty(x);
                }
            },
        }
        proof {
            assert forall|x: Seq<char>| #![trigger string_in(out@, x)] string_in(out@, x) <==> exists|m: int| 0 <= m < k + 1 && #[trigger] text_in(record_image_ids(records@[m]), x) by {
                if text_in(record_image_ids(records@[k as int]), x) {
                    assert(0 <= k < k + 1);
                }
                if exists|m: int| 0 <= m < k + 1 && #[trigger] text_in(record_image_ids(records@[m]), x) {
                    let m = choose|m: int| 0 <= m < k + 1 && #[trigger] text_in(record_image_ids(records@[m]), x);
                    if m < k {
                    }
                }
            }
        }
        k = k + 1;
    }
    out
}

/// The value of an ASCII hexadecimal digit.
pub open spec fn hex_value(b: u8) -> Option<u8> {
    if 48 <= b <= 57 {
        Some((b - 48) as u8)
    } else if 97 <= b <= 102 {
        Some((b - 87) as u8)
    } else if 65 <= b <= 70 {
        Some((b - 55) as u8)
    } else {
        None
    }
}

/// The byte two characters after a `%` stand for, as `u8::from_str_radix`
/// with base 16 reads them: two hex digits, or `+` and one hex digit.
pub open spec fn hex_pair(a: u8, b: u8) -> Option<u8> {
    if a == 43 {
        hex_value(b)
    } else if hex_value(a) is Some && hex_value(b) is Some {
        Some((hex_value(a)->0 * 16 + hex_value(b)->0) as u8)
    } else {
        None
    }
}

/// The bytes of a percent-encoded name, or `None` when an escape is cut
/// short or is not hexadecimal.
pub open spec fn percent_decoded(b: Seq<u8>) -> Option<Seq<u8>>
    decreases b.len(),
{
    if b.len() == 0 {
        Some(Seq::empty())
    } else if b[0] == 37 {
        if b.len() <= 2 {
            None
        } else {
            match hex_pair(b[1], b[2]) {
                None => None,
                Some(v) => match percent_decoded(b.skip(3)) {
                    None => None,
                    Some(r) => Some(seq![v] + r),
                },
            }
        }
    } else {
        match percent_decoded(b.skip(1)) {
            None => None,
            Some(r) => Some(seq![b[0]] + r),
        }
    }
}

fn hex_digit(b: u8) -> (r: Option<u8>)
    ensures
        r == hex_value(b),
{
    if 48 <= b && b <= 57 {
        Some(b - 48)
    } else if 97 <= b && b <= 102 {
        Some(b - 87)
    } else if 65 <= b && b <= 70 {
        Some(b - 55)
    } else {
        None
    }
}

fn decode_hex_pair(a: u8, b: u8) -> (r: Option<u8>)
    ensures
        r == hex_pair(a, b),
{
    if a == 43 {
        return hex_digit(b);
    }
    match (hex_digit(a), hex_digit(b)) {
        (Some(x), Some(y)) => Some(x * 16 + y),
        _ => None,
    }
}

/// Decodes the percent escapes of a name's bytes.
pub fn percent_decode_bytes(bytes: &[u8]) -> (r: Option<Vec<u8>>)
    ensures
        match percent_decoded(bytes@) {
            Some(d) => r is Some && r->0@ == d,
            None => r is None,
        },
{
    let mut out: Vec<u8> = Vec::new();
    let mut i: usize = 0;
    assert(bytes@.skip(0) =~= bytes@);
    while i < bytes.len()
        invariant
            i <= bytes@.len(),
            percent_decoded(bytes@) == match percent_decoded(bytes@.skip(i as int)) {
                Some(rest) => Some(out@ + rest),
                None => None::<Seq<u8>>,
            },
        decreases bytes.len() - i,
    {
        let ghost rest = bytes@.skip(i as int);
        if bytes[i] == 37 {
            if bytes.len() - i <= 2 {
                return None;
            }
            match decode_hex_pair(bytes[i + 1], bytes[i + 2]) {
                None => return None,
                Some(v) => {
                    proof {
                        assert(rest[1] == bytes@[i + 1] && rest[2] == bytes@[i + 2]);
                        assert(rest.skip(3) =~= bytes@.skip(i + 3));
                        match percent_decoded(rest.skip(3)) {
                            Some(r2) => assert(out@ + (seq![v] + r2) =~= out@.push(v) + r2),
                            None => {},
                        }
                    }
                    out.push(v);
                    i = i + 3;
                },
            }
        } else {
            let b = bytes[i];
            proof {
                assert(rest[0] == b);
                assert(rest.skip(1) =~= bytes@.skip(i + 1));
                match percent_decoded(rest.skip(1)) {
                    Some(r2) => assert(out@ + (seq![b] + r2) =~= out@.push(b) + r2),
                    None => {},
                }
            }
            out.push(b);
            i = i + 1;
        }
    }
    assert(bytes@.skip(i as int) =~= Seq::<u8>::empty());
    assert(out@ + Seq::<u8>::empty() =~= out@);
    Some(out)
}

/// Decodes UTF-8 with `String::from_utf8`, which std documents to fail
/// exactly on invalid UTF-8.
#[verifier::external_body]
fn string_from_utf8(bytes: Vec<u8>) -> (r: Option<String>)
    ensures
        r is Some <==> vstd::utf8::valid_utf8(bytes@),
        r is Some ==> r->0@ == vstd::utf8::decode_utf8(bytes@),
{
    String::from_utf8(bytes).ok()
}

/// The path's segments that name something: empty and `.` segments dropped.
pub open spec fn named_segments(segs: Seq<Seq<char>>) -> Seq<Seq<char>>
    decreases segs.len(),
{
    if segs.len() == 0 {
        Seq::empty()
    } else {
        let r = named_segments(segs.drop_last());
        if segs.last().len() == 0 || segs.last() == "."@ { r } else { r.push(segs.last()) }
    }
}

/// The last component of a path as `Path::file_name` reads a Windows
/// path: none when the path ends in `..` or names nothing.
pub open spec fn file_name_of(path: Seq<char>) -> Option<Seq<char>> {
    let n = named_segments(segments(strip_drive(path)));
    if n.len() == 0 || n.last() == ".."@ { None } else { Some(n.last()) }
}

fn strip_drive_chars(cs: &Vec<char>) -> (r: Vec<char>)
    ensures
        r@ == strip_drive(cs@),
{
    if cs.len() >= 2 && cs[1] == ':' && (('a' <= cs[0] && cs[0] <= 'z') || ('A' <= cs[0] && cs[0] <= 'Z')) {
        let mut v: Vec<char> = Vec::new();
        let mut i: usize = 2;
        while i < cs.len()
            invariant
                2 <= i <= cs@.len(),
                v@ == cs@.subrange(2, i as int),
            decreases cs.len() - i,
        {
            v.push(cs[i]);
            i = i + 1;
            assert(v@ =~= cs@.subrange(2, i as int));
        }
        assert(cs@.subrange(2, cs@.len() as int) =~= cs@.skip(2));
        v
    } else {
        cs.clone()
    }
}

fn chars_eq_lit(v: &Vec<char>, lit: &str) -> (r: bool)
    ensures
        r == (v@ == lit@),
{
    let s = string_of(v.as_slice());
    str_eq(s.as_str(), lit)
}

/// The last component of a path.
pub fn path_file_name(path: &str) -> (r: Option<String>)
    ensures
        match file_name_of(path@) {
            Some(n) => r is Some && r->0@ == n,
            None => r is None,
        },
{
    let cs = chars_of(path);
    let stripped = strip_drive_chars(&cs);
    let unified = chars_replace(stripped.as_slice(), '/', '\\');
    let segs = split_chars(unified.as_slice(), '\\');
    let ghost sv = segments(strip_drive(path@));
    let mut last: Option<Vec<char>> = None;
    let mut i: usize = 0;
    while i < segs.len()
        invariant
            i <= segs@.len(),
            segs@.len() == sv.len(),
            forall|k: int| 0 <= k < segs@.len() ==> (#[trigger] segs@[k])@ == sv[k],
            match last {
                Some(l) => named_segments(sv.take(i as int)).len() > 0 && l@ == named_segments(sv.take(i as int)).last(),
                None => named_segments(sv.take(i as int)).len() == 0,
            },
        decreases segs.len() - i,
    {
        proof {
            assert(sv.take(i + 1).drop_last() =~= sv.take(i as int));
            assert(sv.take(i + 1).last() == segs@[i as int]@);
        }
        if !(segs[i].len() == 0 || chars_eq_lit(&segs[i], ".")) {
            last = Some(segs[i].clone());
        }
        i = i + 1;
    }
    assert(sv.take(segs@.len() as int) =~= sv);
    match last {
        Some(l) => {
            if chars_eq_lit(&l, "..") {
                None
            } else {
                Some(string_of(l.as_slice()))
            }
        },
        None => None,
    }
}

/// The text without its trailing spaces and dots.
pub open spec fn strip_trailing_spaces_dots(s: Seq<char>) -> Seq<char>
    decreases s.len(),
{
    if s.len() > 0 && (s.last() == ' ' || s.last() == '.') {
        strip_trailing_spaces_dots(s.drop_last())
    } else {
        s
    }
}

/// Names Windows reserves for devices.
pub open spec fn is_reserved_device_name(stem: Seq<char>) -> bool {
    stem == "CON"@ || stem == "PRN"@ || stem == "AUX"@ || stem == "NUL"@ || stem == "COM1"@ || stem == "COM2"@
        || stem == "COM3"@ || stem == "COM4"@ || stem == "COM5"@ || stem == "COM6"@ || stem == "COM7"@
        || stem == "COM8"@ || stem == "COM9"@ || stem == "LPT1"@ || stem == "LPT2"@ || stem == "LPT3"@
        || stem == "LPT4"@ || stem == "LPT5"@ || stem == "LPT6"@ || stem == "LPT7"@ || stem == "LPT8"@
        || stem == "LPT9"@
}

/// Whether a received file name is refused: empty, a dot name, hidden,
/// ending in a space or a dot, or a reserved device name.
pub open spec fn bad_file_name(name: Seq<char>) -> bool {
    name.len() == 0 || name == "."@ || name == ".."@ || (name.len() > 0 && name[0] == '.')
        || strip_trailing_spaces_dots(name) != name || is_reserved_device_name(
        ascii_uppercase(split_char(name, '.')[0]),
    )
}

/// The name under which a received file is saved, from the percent-encoded
/// name a peer sent, or the error that refuses it.
pub open spec fn sanitized_file_name(raw: Seq<char>) -> Result<Seq<char>, Seq<char>> {
    match percent_decoded(utf8_of(raw)) {
        None => Err("文件名编码无效"@),
        Some(bytes) => if !vstd::utf8::valid_utf8(bytes) {
            Err("文件名编码无效"@)
        } else {
            match file_name_of(vstd::utf8::decode_utf8(bytes)) {
                None => Err("文件名无效"@),
                Some(f) => {
                    let name = trim(f);
                    if bad_file_name(name) {
                        Err("文件名无效"@)
                    } else if name.contains('/') || name.contains('\\') || name.contains(':') {
                        Err("文件名包含非法字符"@)
                    } else {
                        Ok(name)
                    }
                },
            }
        },
    }
}

fn is_reserved(stem: &str) -> (r: bool)
    ensures
        r == is_reserved_device_name(stem@),
{
    str_eq(stem, "CON") || str_eq(stem, "PRN") || str_eq(stem, "AUX") || str_eq(stem, "NUL") || str_eq(stem, "COM1")
        || str_eq(stem, "COM2") || str_eq(stem, "COM3") || str_eq(stem, "COM4") || str_eq(stem, "COM5")
        || str_eq(stem, "COM6") || str_eq(stem, "COM7") || str_eq(stem, "COM8") || str_eq(stem, "COM9")
        || str_eq(stem, "LPT1") || str_eq(stem, "LPT2") || str_eq(stem, "LPT3") || str_eq(stem, "LPT4")
        || str_eq(stem, "LPT5") || str_eq(stem, "LPT6") || str_eq(stem, "LPT7") || str_eq(stem, "LPT8")
        || str_eq(stem, "LPT9")
}

fn strip_spaces_dots(v: &Vec<char>) -> (r: Vec<char>)
    ensures
        r@ == strip_trailing_spaces_dots(v@),
{
    let mut t = v.clone();
    assert(t@ == v@);
    while t.len() > 0 && (t[t.len() - 1] == ' ' || t[t.len() - 1] == '.')
        invariant
            strip_trailing_spaces_dots(t@) == strip_trailing_spaces_dots(v@),
        decreases t.len(),
    {
        t.pop();
    }
    t
}

fn sanitize_file_name(raw: &str) -> (r: Result<String, String>)
    ensures
        match sanitized_file_name(raw@) {
            Ok(n) => r is Ok && r->Ok_0@ == n,
            Err(m) => r is Err && r->Err_0@ == m,
        },
{
    let bytes = raw.as_bytes();
    let decoded = match percent_decode_bytes(bytes) {
        Some(d) => d,
        None => return Err(own("文件名编码无效")),
    };
    let text = match string_from_utf8(decoded) {
        Some(t) => t,
        None => return Err(own("文件名编码无效")),
    };
    let file = match path_file_name(text.as_str()) {
        Some(f) => f,
        None => return Err(own("文件名无效")),
    };
    let fc = chars_of(file.as_str());
    let name = trim_chars(fc.as_slice());
    let bad_basic = name.len() == 0 || chars_eq_lit(&name, ".") || chars_eq_lit(&name, "..") || name[0] == '.';
    if bad_basic {
        return Err(own("文件名无效"));
    }
    let stripped = strip_spaces_dots(&name);
    if stripped.len() != name.len() {
        return Err(own("文件名无效"));
    }
    assert(stripped@ == name@) by {
        assert(stripped@.len() == name@.len());
        assert(stripped@ == strip_trailing_spaces_dots(name@));
        lemma_strip_prefix(name@);
        assert(stripped@ =~= name@);
    }
    let pieces = split_chars(name.as_slice(), '.');
    proof { crate::text::lemma_split_nonempty(name@, '.'); }
    let stem = chars_ascii_uppercase(pieces[0].as_slice());
    let stem_text = string_of(stem.as_slice());
    if is_reserved(stem_text.as_str()) {
        return Err(own("文件名无效"));
    }
    if chars_has(name.as_slice(), '/') || chars_has(name.as_slice(), '\\') || chars_has(name.as_slice(), ':') {
        return Err(own("文件名包含非法字符"));
    }
    Ok(string_of(name.as_slice()))
}

proof fn lemma_strip_prefix(s: Seq<char>)
    ensures
        strip_trailing_spaces_dots(s).len() <= s.len(),
        strip_trailing_spaces_dots(s) == s.take(strip_trailing_spaces_dots(s).len() as int),
    decreases s.len(),
{
    if s.len() > 0 && (s.last() == ' ' || s.last() == '.') {
        lemma_strip_prefix(s.drop_last());
        let r = strip_trailing_spaces_dots(s.drop_last());
        assert(s.drop_last().take(r.len() as int) =~= s.take(r.len() as int));
    } else {
        assert(s.take(s.len() as int) =~= s);
    }
}

pub(crate) fn strip_prefix_chars(cs: &Vec<char>, prefix: &str) -> (r: Option<Vec<char>>)
    ensures
        starts_with(cs@, prefix@) ==> r is Some && r->0@ == cs@.skip(prefix@.len() as int),
        !starts_with(cs@, prefix@) ==> r is None,
{
    let p = chars_of(prefix);
    if !chars_starts_with(cs.as_slice(), p.as_slice()) {
        return None;
    }
    let mut v: Vec<char> = Vec::new();
    let mut i: usize = p.len();
    while i < cs.len()
        invariant
            p@.len() <= i <= cs@.len(),
            v@ == cs@.subrange(p@.len() as int, i as int),
        decreases cs.len() - i,
    {
        v.push(cs[i]);
        i = i + 1;
        assert(v@ =~= cs@.subrange(p@.len() as int, i as int));
    }
    assert(v@ =~= cs@.skip(prefix@.len() as int));
    Some(v)
}

/// The last position of `c` in `s`, or -1.
pub open spec fn last_index_of(s: Seq<char>, c: char) -> int
    decreases s.len(),
{
    if s.len() == 0 {
        -1
    } else if s.last() == c {
        s.len() - 1
    } else {
        last_index_of(s.drop_last(), c)
    }
}

/// The stem and the extension that `Path` reads from a file name: the
/// parts around its last dot, unless the name has no dot but a leading one.
pub open spec fn stem_and_extension(name: Seq<char>) -> (Seq<char>, Option<Seq<char>>) {
    let i = last_index_of(name, '.');
    if i <= 0 {
        (name, None)
    } else {
        (name.take(i), Some(name.skip(i + 1)))
    }
}

/// The name tried for the `index`-th time when a received file is saved:
/// its own name first, then `stem (n).ext` (or `stem (n)` without an
/// extension), with `file` for a missing stem.
pub open spec fn unique_candidate_name(file_name: Seq<char>, index: nat) -> Seq<char> {
    if index == 0 {
        file_name
    } else {
        let parts = match file_name_of(file_name) {
            Some(n) => stem_and_extension(n),
            None => (Seq::<char>::empty(), None),
        };
        let base = if parts.0.len() > 0 { parts.0 } else { "file"@ };
        let numbered = base + " ("@ + decimal(index) + ")"@;
        match parts.1 {
            Some(e) => if e.len() > 0 { numbered + "."@ + e } else { numbered },
            None => numbered,
        }
    }
}

proof fn lemma_last_index_bounds(s: Seq<char>, c: char)
    ensures
        -1 <= last_index_of(s, c) < s.len(),
        last_index_of(s, c) >= 0 ==> s[last_index_of(s, c)] == c,
    decreases s.len(),
{
    if s.len() > 0 && s.last() != c {
        lemma_last_index_bounds(s.drop_last(), c);
    }
}

fn last_dot(s: &Vec<char>) -> (r: Option<usize>)
    ensures
        match r {
            Some(i) => i as int == last_index_of(s@, '.'),
            None => last_index_of(s@, '.') == -1,
        },
{
    assert(s@.take(s@.len() as int) =~= s@);
    let mut i: usize = s.len();
    while i > 0
        invariant
            i <= s@.len(),
            last_index_of(s@, '.') == last_index_of(s@.take(i as int), '.'),
        decreases i,
    {
        assert(s@.take(i as int).drop_last() =~= s@.take(i - 1));
        if s[i - 1] == '.' {
            return Some(i - 1);
        }
        i = i - 1;
    }
    None
}

/// The extension `Path::extension` reads from a path: that of its file
/// name, when it has one.
pub open spec fn path_extension_of(path: Seq<char>) -> Option<Seq<char>> {
    match file_name_of(path) {
        Some(n) => stem_and_extension(n).1,
        None => None,
    }
}

/// The extension of a path's file name.
pub(crate) fn path_extension(path: &str) -> (r: Option<String>)
    ensures
        match path_extension_of(path@) {
            Some(e) => r is Some && r->0@ == e,
            None => r is None,
        },
{
    match path_file_name(path) {
        None => None,
        Some(n) => {
            let nc = chars_of(n.as_str());
            proof { lemma_last_index_bounds(nc@, '.'); }
            match last_dot(&nc) {
                None => None,
                Some(i) => if i == 0 {
                    None
                } else {
                    let e = string_of_range(nc.as_slice(), i + 1, nc.len());
                    assert(nc@.subrange(i + 1, nc@.len() as int) =~= nc@.skip(i + 1));
                    Some(e)
                },
            }
        },
    }
}

/// The path tried for the `index`-th time when a received file is saved in
/// `dir`; the caller moves on to the next index while the path is taken.
pub fn unique_path_candidate(dir: &str, file_name: &str, index: u32) -> (r: String)
    ensures
        r@ == crate::paths::join_path(dir@, unique_candidate_name(file_name@, index as nat)),
{
    if index == 0 {
        let fc = chars_of(file_name);
        return crate::paths::join_path_str(dir, fc.as_slice());
    }
    let ghost parts = match file_name_of(file_name@) {
        Some(n) => stem_and_extension(n),
        None => (Seq::<char>::empty(), None),
    };
    let (stem, ext): (Vec<char>, Option<Vec<char>>) = match path_file_name(file_name) {
        Some(n) => {
            let nc = chars_of(n.as_str());
            proof { lemma_last_index_bounds(nc@, '.'); }
            match last_dot(&nc) {
                None => (nc, None),
                Some(iu) => if iu == 0 {
                    (nc, None)
                } else {
                    let mut before: Vec<char> = Vec::new();
                    let mut after: Vec<char> = Vec::new();
                    let mut k: usize = 0;
                    while k < nc.len()
                        invariant
                            0 < iu < nc@.len(),
                            k <= nc@.len(),
                            before@ == nc@.take(if k < iu { k as int } else { iu as int }),
                            after@ == (if k <= iu { Seq::<char>::empty() } else { nc@.subrange(iu + 1, k as int) }),
                        decreases nc.len() - k,
                    {
                        if k < iu {
                            before.push(nc[k]);
                        } else if k > iu {
                            after.push(nc[k]);
                        }
                        k = k + 1;
                        assert(before@ =~= nc@.take(if k < iu { k as int } else { iu as int }));
                        assert(after@ =~= (if k <= iu { Seq::<char>::empty() } else { nc@.subrange(iu + 1, k as int) }));
                    }
                    assert(after@ =~= nc@.skip(iu + 1));
                    (before, Some(after))
                },
            }
        },
        None => (Vec::new(), None),
    };
    assert(stem@ == parts.0);
    assert(match ext { Some(e) => parts.1 == Some(e@), None => parts.1 is None });
    let mut name = if stem.len() > 0 { stem } else { chars_of("file") };
    let ghost base = name@;
    let open = chars_of(" (");
    extend_chars(&mut name, open.as_slice());
    let d = decimal_chars(index as u64);
    extend_chars(&mut name, d.as_slice());
    name.push(')');
    proof { reveal_strlit(" ("); reveal_strlit(")"); reveal_strlit("."); }
    let ghost numbered = name@;
    assert(numbered =~= base + " ("@ + decimal(index as nat) + ")"@);
    match ext {
        Some(e) => {
            if e.len() > 0 {
                name.push('.');
                extend_chars(&mut name, e.as_slice());
                assert(name@ =~= numbered + "."@ + e@);
            }
        },
        None => {},
    }
    crate::paths::join_path_str(dir, name.as_slice())
}

/// The file of a synchronised image in the data directory, for an
/// identifier that is safe to use in a path.
pub open spec fn sync_image_path_of(data_dir: Seq<char>, image_id: Seq<char>) -> Result<Seq<char>, Seq<char>> {
    if valid_image_id_bytes(utf8_of(image_id)) {
        Ok(crate::paste::image_cache_path_of(data_dir, image_id))
    } else {
        Err("无效的图片 ID"@)
    }
}

/// The file of a synchronised image; an unsafe identifier is refused.
pub fn sync_image_path(data_dir: &str, image_id: &str) -> (r: Result<String, String>)
    ensures
        match sync_image_path_of(data_dir@, image_id@) {
            Ok(p) => r is Ok && r->Ok_0@ == p,
            Err(m) => r is Err && r->Err_0@ == m,
        },
{
    if !is_valid_image_id(image_id) {
        return Err(own("无效的图片 ID"));
    }
    Ok(crate::paste::image_cache_path(data_dir, image_id))
}

/// Where a file being received is written until it is complete: a hidden
/// `.<uuid>.qcpart` file of the received-files directory, with a fresh
/// random uuid.
pub fn received_temp_path(dir: &str) -> (r: String)
    ensures
        exists|u: Seq<char>| crate::ids::is_hyphenated_uuid_v4(u)
            && r@ == crate::paths::join_path(dir@, seq!['.'] + u + ".qcpart"@),
{
    let u = crate::ids::new_uuid_v4();
    let mut name: Vec<char> = Vec::new();
    name.push('.');
    let uc = chars_of(u.as_str());
    extend_chars(&mut name, uc.as_slice());
    let q = chars_of(".qcpart");
    extend_chars(&mut name, q.as_slice());
    assert(name@ =~= seq!['.'] + u@ + ".qcpart"@);
    crate::paths::join_path_str(dir, name.as_slice())
}

proof fn lemma_no_char_prefix(b: Seq<char>, c: char)
    requires
        !b.contains(c),
        b.len() > 0,
    ensures
        !b.drop_last().contains(c),
        b.last() != c,
{
    if b.drop_last().contains(c) {
        let i = choose|i: int| 0 <= i < b.drop_last().len() && b.drop_last()[i] == c;
        assert(b[i] == c);
    }
    if b.last() == c {
        assert(b[b.len() - 1] == c);
    }
}

proof fn lemma_split_no_sep(b: Seq<char>, sep: char)
    requires
        !b.contains(sep),
    ensures
        split_char(b, sep) == seq![b],
    decreases b.len(),
{
    if b.len() == 0 {
        assert(b =~= Seq::<char>::empty());
    } else {
        lemma_no_char_prefix(b, sep);
        lemma_split_no_sep(b.drop_last(), sep);
        let r = split_char(b.drop_last(), sep);
        assert(r == seq![b.drop_last()]);
        assert(split_char(b, sep) == r.update(r.len() - 1, r.last().push(b.last())));
        assert(b.drop_last().push(b.last()) =~= b);
        assert(r.update(r.len() - 1, r.last().push(b.last())) =~= seq![b]);
    }
}

proof fn lemma_split_after_sep(a: Seq<char>, b: Seq<char>, sep: char)
    requires
        !b.contains(sep),
    ensures
        split_char(a + seq![sep] + b, sep) == split_char(a, sep).push(b),
    decreases b.len(),
{
    let s = a + seq![sep] + b;
    if b.len() == 0 {
        assert(s.drop_last() =~= a);
        assert(s.last() == sep);
        assert(split_char(s, sep) == split_char(a, sep).push(Seq::<char>::empty()));
        assert(b =~= Seq::<char>::empty());
    } else {
        lemma_no_char_prefix(b, sep);
        lemma_split_after_sep(a, b.drop_last(), sep);
        assert(s.drop_last() =~= a + seq![sep] + b.drop_last());
        assert(s.last() == b.last());
        let r = split_char(a + seq![sep] + b.drop_last(), sep);
        assert(r == split_char(a, sep).push(b.drop_last()));
        assert(split_char(s, sep) == r.update(r.len() - 1, r.last().push(b.last())));
        assert(b.drop_last().push(b.last()) =~= b);
        assert(r.update(r.len() - 1, r.last().push(b.last())) =~= split_char(a, sep).push(b));
    }
}

proof fn lemma_replace_absent(name: Seq<char>)
    requires
        !name.contains('/'),
    ensures
        crate::text::replace_char(name, '/', '\\') == name,
{
    assert forall|i: int| 0 <= i < name.len() implies crate::text::replace_char(name, '/', '\\')[i] == name[i] by {
        if name[i] == '/' {
            assert(name.contains('/'));
        }
    }
    assert(crate::text::replace_char(name, '/', '\\') =~= name);
}

/// Whether a name can be a plain file name: not empty, not a dot name, free
/// of separators, and not read as a drive.
pub open spec fn is_plain_file_name(name: Seq<char>) -> bool {
    &&& name.len() > 0
    &&& name != "."@
    &&& name != ".."@
    &&& !name.contains('\\')
    &&& !name.contains('/')
    &&& !(name.len() >= 2 && name[1] == ':')
}

/// Law: a file put in a directory is named by its own name.
pub proof fn lemma_file_name_of_joined(dir: Seq<char>, name: Seq<char>)
    requires
        is_plain_file_name(name),
    ensures
        file_name_of(crate::paths::join_path(dir, name)) == Some(name),
{
    let p = crate::paths::join_path(dir, name);
    lemma_replace_absent(name);
    if dir.len() == 0 {
        assert(p == name);
        assert(strip_drive(p) == name);
        lemma_split_no_sep(name, '\\');
        assert(segments(strip_drive(p)) == seq![name]);
        let one = seq![name];
        assert(one.drop_last() =~= Seq::<Seq<char>>::empty());
        assert(named_segments(Seq::<Seq<char>>::empty()) == Seq::<Seq<char>>::empty());
        assert(named_segments(one) == named_segments(one.drop_last()).push(name));
        assert(named_segments(one) =~= seq![name]);
    } else {
        let (q, sepc) = if crate::paths::is_separator(dir.last()) { (dir.drop_last(), dir.last()) } else { (dir, '\\') };
        assert(p =~= q + seq![sepc] + name);
        let t = strip_drive(p);
        let q2 = if p.len() >= 2 && p[1] == ':' && (('a' <= p[0] && p[0] <= 'z') || ('A' <= p[0] && p[0] <= 'Z')) {
            q.skip(2)
        } else {
            q
        };
        if p.len() >= 2 && p[1] == ':' && (('a' <= p[0] && p[0] <= 'z') || ('A' <= p[0] && p[0] <= 'Z')) {
            assert(q.len() >= 2) by {
                if q.len() == 0 {
                    assert(p[0] == sepc);
                } else if q.len() == 1 {
                    assert(p[1] == sepc);
                }
            }
            assert(t =~= q2 + seq![sepc] + name);
        } else {
            assert(t =~= q2 + seq![sepc] + name);
        }
        let rq = crate::text::replace_char(q2, '/', '\\');
        assert(crate::text::replace_char(t, '/', '\\') =~= rq + seq!['\\'] + name);
        lemma_split_after_sep(rq, name, '\\');
        let segs = split_char(rq, '\\').push(name);
        assert(segs.drop_last() =~= split_char(rq, '\\'));
        assert(named_segments(segs) == named_segments(split_char(rq, '\\')).push(name));
    }
}

proof fn lemma_partial_name_plain(u: Seq<char>)
    requires
        crate::ids::is_hyphenated_uuid_v4(u),
    ensures
        is_plain_file_name(seq!['.'] + u + ".qcpart"@),
        ends_with(seq!['.'] + u + ".qcpart"@, ".qcpart"@),
{
    let name = seq!['.'] + u + ".qcpart"@;
    reveal_strlit(".qcpart");
    reveal_strlit(".");
    reveal_strlit("..");
    assert(".qcpart"@.len() == 7);
    assert(name.len() == 44);
    assert(name != "."@) by {
        assert("."@.len() == 1);
    }
    assert(name != ".."@) by {
        assert(".."@.len() == 2);
    }
    assert(name[1] == u[0]);
    assert(crate::hashing::is_lower_hex(u[0]));
    assert(name[1] != ':');
    assert forall|i: int| 0 <= i < name.len() implies name[i] != '\\' && name[i] != '/' by {
        if i == 0 {
        } else if i < 37 {
            assert(name[i] == u[i - 1]);
        } else {
            assert(name[i] == ".qcpart"@[i - 37]);
        }
    }
    assert(!name.contains('\\'));
    assert(!name.contains('/'));
    assert(name.subrange(name.len() - 7, name.len() as int) =~= ".qcpart"@);
}

/// Law: the partial file of a download is always one of the library's own
/// files, so it is never listed as a received file.
pub proof fn lemma_partial_file_is_internal(dir: Seq<char>, u: Seq<char>)
    requires
        crate::ids::is_hyphenated_uuid_v4(u),
    ensures
        is_internal_file_name(crate::paths::join_path(dir, seq!['.'] + u + ".qcpart"@)),
{
    lemma_partial_name_plain(u);
    lemma_file_name_of_joined(dir, seq!['.'] + u + ".qcpart"@);
}

/// Whether a file of the received-files directory is a partial download
/// left behind, which the start-up sweep removes.
pub fn is_partial_file_name(name: &str) -> (r: bool)
    ensures
        r == ends_with(name@, ".qcpart"@),
{
    let cs = chars_of(name);
    let q = chars_of(".qcpart");
    chars_ends_with(cs.as_slice(), q.as_slice())
}

/// Law: a partial download that was never completed is removed by the
/// start-up sweep.
pub proof fn lemma_partial_file_is_swept(dir: Seq<char>, u: Seq<char>)
    requires
        crate::ids::is_hyphenated_uuid_v4(u),
    ensures
        file_name_of(crate::paths::join_path(dir, seq!['.'] + u + ".qcpart"@)) == Some(seq!['.'] + u + ".qcpart"@),
        ends_with(seq!['.'] + u + ".qcpart"@, ".qcpart"@),
{
    lemma_partial_name_plain(u);
    lemma_file_name_of_joined(dir, seq!['.'] + u + ".qcpart"@);
}

/// The name kept for a received file: its file name, or `file` when it has
/// none or only blanks.
pub open spec fn received_file_name_of(path: Seq<char>) -> Seq<char> {
    match file_name_of(path) {
        Some(n) => if crate::text::is_blank(n) { "file"@ } else { n },
        None => "file"@,
    }
}

/// The name recorded for a received file.
pub fn received_file_name(path: &str) -> (r: String)
    ensures
        r@ == received_file_name_of(path@),
{
    match path_file_name(path) {
        Some(n) => {
            if crate::text::str_is_blank(n.as_str()) {
                own("file")
            } else {
                n
            }
        },
        None => own("file"),
    }
}

/// The name of a file a peer sends, from its transfer address.
pub open spec fn transfer_file_name(path: Seq<char>) -> Result<Seq<char>, Seq<char>> {
    if !starts_with(path, "/qc-transfer/files/"@) {
        Err("无效的局域网传输路径"@)
    } else {
        sanitized_file_name(path.skip("/qc-transfer/files/"@.len() as int))
    }
}

/// Reads and checks the file name of a transfer address.
pub fn file_name_from_transfer_path(path: &str) -> (r: Result<String, String>)
    ensures
        match transfer_file_name(path@) {
            Ok(n) => r is Ok && r->Ok_0@ == n,
            Err(m) => r is Err && r->Err_0@ == m,
        },
{
    let cs = chars_of(path);
    match strip_prefix_chars(&cs, "/qc-transfer/files/") {
        None => Err(own("无效的局域网传输路径")),
        Some(rest) => {
            let raw = string_of(rest.as_slice());
            sanitize_file_name(raw.as_str())
        },
    }
}

/// The image identifier of an image file address `/qc-sync/files/<id>.png`.
pub open spec fn image_id_of_file_path(path: Seq<char>) -> Result<Seq<char>, Seq<char>> {
    let prefix = "/qc-sync/files/"@;
    if !starts_with(path, prefix) {
        Err("无效的局域网文件路径"@)
    } else if !ends_with(path.skip(prefix.len() as int), ".png"@) {
        Err("仅支持 png 图片文件"@)
    } else {
        let rest = path.skip(prefix.len() as int);
        let id = rest.take(rest.len() - 4);
        if !valid_image_id_bytes(utf8_of(id)) {
            Err("无效的图片 ID"@)
        } else {
            Ok(id)
        }
    }
}

/// Reads the image identifier of an image file address.
pub fn image_id_from_file_path(path: &str) -> (r: Result<String, String>)
    ensures
        match image_id_of_file_path(path@) {
            Ok(n) => r is Ok && r->Ok_0@ == n,
            Err(m) => r is Err && r->Err_0@ == m,
        },
{
    let cs = chars_of(path);
    let rest = match strip_prefix_chars(&cs, "/qc-sync/files/") {
        None => return Err(own("无效的局域网文件路径")),
        Some(r) => r,
    };
    let png = chars_of(".png");
    if !chars_ends_with(rest.as_slice(), png.as_slice()) {
        return Err(own("仅支持 png 图片文件"));
    }
    proof { reveal_strlit(".png"); }
    let id = string_of_range(rest.as_slice(), 0, rest.len() - 4);
    assert(id@ =~= rest@.take(rest@.len() - 4));
    if !is_valid_image_id(id.as_str()) {
        return Err(own("无效的图片 ID"));
    }
    Ok(id)
}

/// Whether a file of the received-files directory is the library's own:
/// the index, a hidden file, or a partial download.
pub open spec fn is_internal_file_name(path: Seq<char>) -> bool {
    match file_name_of(path) {
        Some(n) => n == "index.json"@ || (n.len() > 0 && n[0] == '.') || ends_with(n, ".qcpart"@),
        None => false,
    }
}

/// Whether a received file is one of the library's own files.
pub fn is_received_file_internal(path: &str) -> (r: bool)
    ensures
        r == is_internal_file_name(path@),
{
    match path_file_name(path) {
        Some(n) => {
            let nc = chars_of(n.as_str());
            let q = chars_of(".qcpart");
            str_eq(n.as_str(), "index.json") || (nc.len() > 0 && nc[0] == '.') || chars_ends_with(nc.as_slice(), q.as_slice())
        },
        None => false,
    }
}

/// The directory of files received from peers, under the data directory.
pub fn received_files_dir(data_dir: &str) -> (r: String)
    ensures
        r@ == crate::paths::join_path(data_dir@, "sync_transfer_files"@),
{
    let sub = chars_of("sync_transfer_files");
    crate::paths::join_path_str(data_dir, sub.as_slice())
}

/// The entries of the received-files index other than the file `path_key`.
pub open spec fn without_received(index: Seq<(String, ReceivedFileMetadata)>, path_key: Seq<char>) -> Seq<(String, ReceivedFileMetadata)>
    decreases index.len(),
{
    if index.len() == 0 {
        Seq::empty()
    } else {
        let r = without_received(index.drop_last(), path_key);
        let e = index.last();
        if e.0@ == path_key || e.1.path@ == path_key { r } else { r.push(e) }
    }
}

/// Removes a file from the received-files index, by key or recorded path.
/// Returns whether the index changed and must be saved.
pub fn remove_received_file_metadata(index: &mut Vec<(String, ReceivedFileMetadata)>, path_key: &str) -> (changed: bool)
    ensures
        final(index)@ == without_received(old(index)@, path_key@),
        changed == (final(index)@.len() != old(index)@.len()),
{
    let ghost start = index@;
    let mut kept: Vec<(String, ReceivedFileMetadata)> = Vec::new();
    let mut rest: Vec<(String, ReceivedFileMetadata)> = Vec::new();
    std::mem::swap(&mut rest, index);
    let n = rest.len();
    let mut consumed: usize = 0;
    while rest.len() > 0
        invariant
            start.len() == n,
            consumed <= n,
            rest@ == start.skip(consumed as int),
            kept@ == without_received(start.take(consumed as int), path_key@),
        decreases rest.len(),
    {
        let e = rest.remove(0);
        proof {
            assert(start.take(consumed + 1).drop_last() =~= start.take(consumed as int));
            assert(start.take(consumed + 1).last() == e);
            assert(rest@ =~= start.skip(consumed + 1));
        }
        let drop = str_eq(e.0.as_str(), path_key) || str_eq(e.1.path.as_str(), path_key);
        if !drop {
            kept.push(e);
        }
        consumed = consumed + 1;
    }
    assert(start.take(consumed as int) =~= start);
    let changed = kept.len() != n;
    *index = kept;
    changed
}

} // verus!
