//! Parsing of `multipart/form-data` uploads: the boundary of a content type,
//! parameters of part headers, the avatar upload and named image fields.
use vstd::prelude::*;

use crate::text::{
    ascii_lower_seq, ascii_lowercase, chars_eq, chars_eq_ignore_case, chars_of, contains_chars,
    copy_bytes, ends_with_bytes, eq_ignore_case, find_bytes, find_first, has_prefix, has_suffix,
    lemma_find_first, lines_of, lines_spec, occurs_at, occurs_in, owned, push_bytes,
    push_str_chars, slice_chars, split_chars, split_on, split_once, split_once_chars,
    starts_with_bytes, starts_with_chars, string_of, to_lowercase, trim, trim_char, trim_chars,
    trim_matches_char, trim_str, unicode_lowercase, utf8_lossy, utf8_lossy_text,
};

verus! {

/// The views of a vector of character vectors.
pub open spec fn views(v: Seq<Vec<char>>) -> Seq<Seq<char>> {
    v.map_values(|p: Vec<char>| p@)
}

/// The rest of the first piece that, once trimmed, starts with `p`
/// (`find_map(|part| part.trim().strip_prefix(p))`).
pub open spec fn find_prefixed(segs: Seq<Seq<char>>, p: Seq<char>) -> Option<Seq<char>>
    decreases segs.len(),
{
    if segs.len() == 0 {
        None
    } else if has_prefix(trim(segs[0]), p) {
        Some(trim(segs[0]).skip(p.len() as int))
    } else {
        find_prefixed(segs.drop_first(), p)
    }
}

proof fn lemma_find_prefixed_step(segs: Seq<Seq<char>>, p: Seq<char>, j: int)
    requires
        0 <= j < segs.len(),
        !has_prefix(trim(segs[j]), p),
    ensures
        find_prefixed(segs.skip(j), p) == find_prefixed(segs.skip(j + 1), p),
{
    assert(segs.skip(j).drop_first() =~= segs.skip(j + 1));
    assert(segs.skip(j)[0] == segs[j]);
}

/// The rest of the first trimmed piece of `segs` that starts with `p`.
pub fn find_prefixed_piece(segs: &Vec<Vec<char>>, p: &[char]) -> (r: Option<Vec<char>>)
    ensures
        match find_prefixed(views(segs@), p@) {
            Some(rest) => r matches Some(v) && v@ == rest,
            None => r is None,
        },
{
    let mut j: usize = 0;
    assert(views(segs@).skip(0) =~= views(segs@));
    while j < segs.len()
        invariant
            j <= segs@.len(),
            find_prefixed(views(segs@), p@) == find_prefixed(views(segs@).skip(j as int), p@),
        decreases segs@.len() - j,
    {
        let t = trim_chars(segs[j].as_slice());
        assert(views(segs@)[j as int] == segs@[j as int]@);
        if starts_with_chars(t.as_slice(), p) {
            assert(views(segs@).skip(j as int)[0] == views(segs@)[j as int]);
            let rest = slice_chars(t.as_slice(), p.len(), t.len());
            assert(rest@ =~= t@.skip(p@.len() as int));
            return Some(rest);
        }
        proof {
            lemma_find_prefixed_step(views(segs@), p@, j as int);
        }
        j = j + 1;
    }
    assert(views(segs@).skip(j as int) =~= Seq::<Seq<char>>::empty());
    None
}

/// The boundary named in a `Content-Type` value: the first `;`-separated
/// piece that starts with `boundary=`, without surrounding quotes; `None`
/// when there is none or it is empty.
pub open spec fn boundary_spec(content_type: Seq<char>) -> Option<Seq<char>> {
    match find_prefixed(split_on(content_type, ';'), "boundary="@) {
        Some(rest) => {
            let v = trim_char(rest, '"');
            if v.len() > 0 {
                Some(v)
            } else {
                None
            }
        },
        None => None,
    }
}

/// The multipart boundary of a `Content-Type` header value.
pub fn multipart_boundary(content_type: &str) -> (r: Option<String>)
    ensures
        match boundary_spec(content_type@) {
            Some(b) => r matches Some(s) && s@ == b,
            None => r is None,
        },
{
    let ct = chars_of(content_type);
    let segs = split_chars(ct.as_slice(), ';');
    let key = chars_of("boundary=");
    match find_prefixed_piece(&segs, key.as_slice()) {
        Some(rest) => {
            let v = trim_matches_char(rest.as_slice(), '"');
            if v.len() > 0 {
                Some(string_of(v.as_slice()))
            } else {
                None
            }
        },
        None => None,
    }
}

/// The value of parameter `key` in a `Content-Disposition` line: the text
/// after `key="` up to the next quote, in the first `;`-separated piece that
/// starts with `key="`; `None` when absent or empty.
pub open spec fn disposition_spec(line: Seq<char>, key: Seq<char>) -> Option<Seq<char>> {
    match find_prefixed(split_on(line, ';'), key + "=\""@) {
        Some(rest) => {
            let v = split_on(rest, '"')[0];
            if v.len() > 0 {
                Some(v)
            } else {
                None
            }
        },
        None => None,
    }
}

/// The quoted parameter `key` of a `Content-Disposition` header line.
pub fn disposition_param(line: &str, key: &str) -> (r: Option<String>)
    ensures
        match disposition_spec(line@, key@) {
            Some(v) => r matches Some(s) && s@ == v,
            None => r is None,
        },
{
    let l = chars_of(line);
    disposition_param_chars(l.as_slice(), key)
}

fn disposition_param_chars(line: &[char], key: &str) -> (r: Option<String>)
    ensures
        match disposition_spec(line@, key@) {
            Some(v) => r matches Some(s) && s@ == v,
            None => r is None,
        },
{
    let segs = split_chars(line, ';');
    let mut prefix = chars_of(key);
    push_str_chars(&mut prefix, "=\"");
    match find_prefixed_piece(&segs, prefix.as_slice()) {
        Some(rest) => {
            let pieces = split_chars(rest.as_slice(), '"');
            assert(views(pieces@)[0] == pieces@[0]@);
            let v = &pieces[0];
            if v.len() > 0 {
                Some(string_of(v.as_slice()))
            } else {
                None
            }
        },
        None => None,
    }
}

/// The value of the first `;`-separated piece of the form `name=value`
/// (name compared without ASCII case), trimmed and without surrounding
/// quotes.
pub open spec fn header_param_in(segs: Seq<Seq<char>>, name: Seq<char>) -> Option<Seq<char>>
    decreases segs.len(),
{
    if segs.len() == 0 {
        None
    } else {
        match split_once(trim(segs[0]), '=') {
            Some(kv) => if eq_ignore_case(trim(kv.0), name) {
                Some(trim_char(trim(kv.1), '"'))
            } else {
                header_param_in(segs.drop_first(), name)
            },
            None => header_param_in(segs.drop_first(), name),
        }
    }
}

/// The parameter `name` of a header block.
pub open spec fn header_param_spec(headers: Seq<char>, name: Seq<char>) -> Option<Seq<char>> {
    header_param_in(split_on(headers, ';'), name)
}

/// The parameter `name` (such as `filename`) of a part's header block.
pub fn header_value_param(headers: &str, name: &str) -> (r: Option<String>)
    ensures
        match header_param_spec(headers@, name@) {
            Some(v) => r matches Some(s) && s@ == v,
            None => r is None,
        },
{
    let h = chars_of(headers);
    let n = chars_of(name);
    header_value_param_chars(h.as_slice(), n.as_slice())
}

fn header_value_param_chars(headers: &[char], name: &[char]) -> (r: Option<String>)
    ensures
        match header_param_spec(headers@, name@) {
            Some(v) => r matches Some(s) && s@ == v,
            None => r is None,
        },
{
    let segs = split_chars(headers, ';');
    let ghost sv = views(segs@);
    let mut j: usize = 0;
    assert(sv.skip(0) =~= sv);
    while j < segs.len()
        invariant
            sv == views(segs@),
            sv == split_on(headers@, ';'),
            j <= segs@.len(),
            header_param_in(sv, name@) == header_param_in(sv.skip(j as int), name@),
        decreases segs@.len() - j,
    {
        let t = trim_chars(segs[j].as_slice());
        assert(sv[j as int] == segs@[j as int]@);
        assert(sv.skip(j as int)[0] == sv[j as int]);
        assert(sv.skip(j as int).drop_first() =~= sv.skip(j + 1));
        match split_once_chars(t.as_slice(), '=') {
            Some(kv) => {
                let k = trim_chars(kv.0.as_slice());
                if chars_eq_ignore_case(k.as_slice(), name) {
                    let v = trim_chars(kv.1.as_slice());
                    let q = trim_matches_char(v.as_slice(), '"');
                    return Some(string_of(q.as_slice()));
                }
            },
            None => {},
        }
        j = j + 1;
    }
    assert(sv.skip(j as int) =~= Seq::<Seq<char>>::empty());
    None
}


/// A named file field of a multipart body.
#[derive(Debug)]
pub struct ImageUpload {
    pub bytes: Vec<u8>,
    pub bytes_for_mime: Vec<u8>,
    pub filename: Option<String>,
    pub content_type: Option<String>,
}

/// The text of an optional `String`.
pub open spec fn opt_string_view(o: Option<String>) -> Option<Seq<char>> {
    match o {
        Some(s) => Some(s@),
        None => None,
    }
}

/// `"\r\n\r\n"`.
pub open spec fn crlf2() -> Seq<u8> {
    seq![13u8, 10u8, 13u8, 10u8]
}

/// `"\n\n"`.
pub open spec fn lf2() -> Seq<u8> {
    seq![10u8, 10u8]
}

/// `"\r\n"`.
pub open spec fn crlf() -> Seq<u8> {
    seq![13u8, 10u8]
}

/// `"--"`.
pub open spec fn dashes() -> Seq<u8> {
    seq![45u8, 45u8]
}

/// Where a part's header block ends and how long the blank line after it
/// is: the first `"\r\n\r\n"`, else the first `"\n\n"`.
pub open spec fn header_end_spec(part: Seq<u8>) -> Option<(int, int)> {
    match find_first(part, crlf2()) {
        Some(i) => Some((i, 4)),
        None => match find_first(part, lf2()) {
            Some(i) => Some((i, 2)),
            None => None,
        },
    }
}

/// The first line that holds a `:`, split there.
pub open spec fn first_colon_split(lines: Seq<Seq<char>>) -> Option<(Seq<char>, Seq<char>)>
    decreases lines.len(),
{
    if lines.len() == 0 {
        None
    } else {
        match split_once(lines[0], ':') {
            Some(kv) => Some(kv),
            None => first_colon_split(lines.drop_first()),
        }
    }
}

/// The part's content type: the value of the first header line holding a
/// `:`, when that line's name is `content-type` (any ASCII case).
pub open spec fn part_content_type_spec(headers: Seq<char>) -> Option<Seq<char>> {
    match first_colon_split(lines_spec(headers)) {
        Some(kv) => if eq_ignore_case(trim(kv.0), "content-type"@) {
            Some(trim(kv.1))
        } else {
            None
        },
        None => None,
    }
}

/// The upload in `part` when its headers name the field `field`
/// (compared in Unicode lowercase): the bytes after the blank line, the
/// `filename` parameter and the content type.
pub open spec fn parse_part_spec(part: Seq<u8>, field: Seq<char>) -> Option<
    (Seq<u8>, Option<Seq<char>>, Option<Seq<char>>),
> {
    match header_end_spec(part) {
        Some(he) => {
            let headers = utf8_lossy_text(part.take(he.0));
            if occurs_in(
                unicode_lowercase(headers),
                "name=\""@ + unicode_lowercase(field) + "\""@,
            ) {
                Some(
                    (
                        part.skip(he.0 + he.1),
                        header_param_spec(headers, "filename"@),
                        part_content_type_spec(headers),
                    ),
                )
            } else {
                None
            }
        },
        None => None,
    }
}

/// The view of an upload.
pub open spec fn upload_view(u: ImageUpload) -> (Seq<u8>, Option<Seq<char>>, Option<Seq<char>>) {
    (u.bytes@, opt_string_view(u.filename), opt_string_view(u.content_type))
}

fn first_colon_split_exec(lines: &Vec<Vec<char>>) -> (r: Option<(Vec<char>, Vec<char>)>)
    ensures
        match first_colon_split(views(lines@)) {
            Some(kv) => r matches Some(p) && p.0@ == kv.0 && p.1@ == kv.1,
            None => r is None,
        },
{
    let ghost lv = views(lines@);
    let mut j: usize = 0;
    assert(lv.skip(0) =~= lv);
    while j < lines.len()
        invariant
            lv == views(lines@),
            j <= lines@.len(),
            first_colon_split(lv) == first_colon_split(lv.skip(j as int)),
        decreases lines@.len() - j,
    {
        assert(lv[j as int] == lines@[j as int]@);
        assert(lv.skip(j as int)[0] == lv[j as int]);
        assert(lv.skip(j as int).drop_first() =~= lv.skip(j + 1));
        match split_once_chars(lines[j].as_slice(), ':') {
            Some(kv) => {
                return Some(kv);
            },
            None => {},
        }
        j = j + 1;
    }
    assert(lv.skip(j as int) =~= Seq::<Seq<char>>::empty());
    None
}

fn part_content_type(headers: &[char]) -> (r: Option<String>)
    ensures
        opt_string_view(r) == part_content_type_spec(headers@),
{
    let lines = lines_of(headers);
    match first_colon_split_exec(&lines) {
        Some(kv) => {
            let key = trim_chars(kv.0.as_slice());
            let ct = chars_of("content-type");
            if chars_eq_ignore_case(key.as_slice(), ct.as_slice()) {
                let v = trim_chars(kv.1.as_slice());
                Some(string_of(v.as_slice()))
            } else {
                None
            }
        },
        None => None,
    }
}

fn header_end(part: &[u8]) -> (r: Option<(usize, usize)>)
    ensures
        match header_end_spec(part@) {
            Some(he) => r matches Some(p) && p.0 == he.0 && p.1 == he.1 && he.0 + he.1
                <= part@.len(),
            None => r is None,
        },
{
    let a: [u8; 4] = [13, 10, 13, 10];
    let b: [u8; 2] = [10, 10];
    let sa = a.as_slice();
    let sb = b.as_slice();
    assert(sa@ =~= crlf2());
    assert(sb@ =~= lf2());
    let fa = find_bytes(part, sa);
    proof {
        lemma_find_first(part@, crlf2(), fa);
    }
    match fa {
        Some(i) => {
            assert(occurs_at(part@, crlf2(), i as int));
            Some((i, 4))
        },
        None => {
            let fb = find_bytes(part, sb);
            proof {
                lemma_find_first(part@, lf2(), fb);
            }
            match fb {
                Some(i) => {
                    assert(occurs_at(part@, lf2(), i as int));
                    Some((i, 2))
                },
                None => None,
            }
        },
    }
}

/// The upload in one multipart part when its headers name `field`.
pub fn parse_part(part: &[u8], field: &str) -> (r: Option<ImageUpload>)
    ensures
        match parse_part_spec(part@, field@) {
            Some(u) => r matches Some(x) && upload_view(x) == u && x.bytes_for_mime@ == x.bytes@,
            None => r is None,
        },
{
    let he = header_end(part);
    match he {
        None => None,
        Some((i, w)) => {
            let head = &part[0..i];
            assert(head@ =~= part@.take(i as int));
            let headers = utf8_lossy(head);
            let lower = to_lowercase(headers.as_str());
            let mut needle = chars_of("name=\"");
            let lf = to_lowercase(field);
            push_str_chars(&mut needle, lf.as_str());
            push_str_chars(&mut needle, "\"");
            let lower_chars = chars_of(lower.as_str());
            if !contains_chars(lower_chars.as_slice(), needle.as_slice()) {
                return None;
            }
            let hchars = chars_of(headers.as_str());
            let filename = header_value_param_chars(hchars.as_slice(), chars_of("filename").as_slice());
            let content_type = part_content_type(hchars.as_slice());
            let pl = part.len();
            assert(i + w <= pl);
            let bytes = copy_bytes(part, i + w, pl);
            assert(bytes@ =~= part@.skip(i + w));
            let bytes_for_mime = copy_bytes(part, i + w, pl);
            Some(ImageUpload { bytes, bytes_for_mime, filename, content_type })
        },
    }
}


/// The marker that opens each part: `--` and the boundary's UTF-8 bytes.
pub open spec fn marker_spec(boundary: Seq<char>) -> Seq<u8> {
    dashes() + vstd::utf8::encode_utf8(boundary)
}

/// Where a part begins after a marker that ends at `start`: past one
/// `"\r\n"`, or else one `"\n"`.
pub open spec fn part_start_spec(body: Seq<u8>, start: int) -> int {
    if has_prefix(body.skip(start), crlf()) {
        start + 2
    } else if has_prefix(body.skip(start), seq![10u8]) {
        start + 1
    } else {
        start
    }
}

/// A part without one trailing `"\r\n"`, or else one trailing `"\n"`.
pub open spec fn trim_part_end(part: Seq<u8>) -> Seq<u8> {
    if has_suffix(part, crlf()) {
        part.take(part.len() - 2)
    } else if has_suffix(part, seq![10u8]) {
        part.take(part.len() - 1)
    } else {
        part
    }
}

/// The scan for field `field` from byte `from`: find the next marker; stop
/// at a closing `--`; the part runs to the next marker or the end of the
/// body; the first part that names `field` is the result.
pub open spec fn field_scan(body: Seq<u8>, marker: Seq<u8>, field: Seq<char>, from: int) -> Option<
    (Seq<u8>, Option<Seq<char>>, Option<Seq<char>>),
>
    decreases body.len() - from,
{
    if from < 0 || from > body.len() || marker.len() == 0 {
        None
    } else {
        match find_first(body.skip(from), marker) {
            None => None,
            Some(rel) => {
                let start = from + rel + marker.len();
                if has_prefix(body.skip(start), dashes()) {
                    None
                } else {
                    let ps = part_start_spec(body, start);
                    let next = match find_first(body.skip(ps), marker) {
                        Some(k) => ps + k,
                        None => body.len() as int,
                    };
                    match parse_part_spec(trim_part_end(body.subrange(ps, next)), field) {
                        Some(u) => Some(u),
                        None => if from < next <= body.len() {
                            field_scan(body, marker, field, next)
                        } else {
                            None
                        },
                    }
                }
            },
        }
    }
}

fn marker_bytes(boundary: &str) -> (m: Vec<u8>)
    ensures
        m@ == marker_spec(boundary@),
{
    let mut m: Vec<u8> = vec![45, 45];
    assert(m@ =~= dashes());
    push_bytes(&mut m, boundary.as_bytes());
    m
}

fn has_prefix_at(body: &[u8], at: usize, p: &[u8]) -> (b: bool)
    requires
        at <= body@.len(),
    ensures
        b == has_prefix(body@.skip(at as int), p@),
{
    let rest = &body[at..body.len()];
    assert(rest@ =~= body@.skip(at as int));
    starts_with_bytes(rest, p)
}

/// The first part of the multipart `body` (with `boundary`) whose headers
/// name the field `field`.
pub fn find_multipart_field(body: &[u8], boundary: &str, field: &str) -> (r: Option<ImageUpload>)
    ensures
        match field_scan(body@, marker_spec(boundary@), field@, 0) {
            Some(u) => r matches Some(x) && upload_view(x) == u && x.bytes_for_mime@ == x.bytes@,
            None => r is None,
        },
{
    let marker = marker_bytes(boundary);
    let ghost m = marker@;
    let bl = body.len();
    let mut search_from: usize = 0;
    let dd: [u8; 2] = [45, 45];
    let cr: [u8; 2] = [13, 10];
    let nl: [u8; 1] = [10];
    assert(dd@ =~= dashes());
    assert(cr@ =~= crlf());
    assert(nl@ =~= seq![10u8]);
    loop
        invariant
            m == marker@,
            m == marker_spec(boundary@),
            m.len() >= 2,
            bl == body@.len(),
            search_from <= bl,
            field_scan(body@, m, field@, 0) == field_scan(body@, m, field@, search_from as int),
            dd@ == dashes(),
            cr@ == crlf(),
            nl@ == seq![10u8],
        decreases bl - search_from,
    {
        let rest = &body[search_from..bl];
        assert(rest@ =~= body@.skip(search_from as int));
        let found = find_bytes(rest, marker.as_slice());
        proof {
            lemma_find_first(rest@, m, found);
        }
        let relative = match found {
            Some(x) => x,
            None => {
                return None;
            },
        };
        assert(occurs_at(rest@, m, relative as int));
        let start = search_from + relative + marker.len();
        if has_prefix_at(body, start, dd.as_slice()) {
            return None;
        }
        let part_start = if has_prefix_at(body, start, cr.as_slice()) {
            start + 2
        } else if has_prefix_at(body, start, nl.as_slice()) {
            start + 1
        } else {
            start
        };
        assert(part_start as int == part_start_spec(body@, start as int));
        let tail = &body[part_start..bl];
        assert(tail@ =~= body@.skip(part_start as int));
        let found_next = find_bytes(tail, marker.as_slice());
        proof {
            lemma_find_first(tail@, m, found_next);
        }
        let next = match found_next {
            Some(k) => {
                assert(occurs_at(tail@, m, k as int));
                part_start + k
            },
            None => bl,
        };
        let mut end = next;
        let whole = &body[part_start..next];
        if ends_with_bytes(whole, cr.as_slice()) {
            end = next - 2;
        } else if ends_with_bytes(whole, nl.as_slice()) {
            end = next - 1;
        }
        let part = &body[part_start..end];
        assert(part@ =~= trim_part_end(body@.subrange(part_start as int, next as int)));
        match parse_part(part, field) {
            Some(upload) => {
                return Some(upload);
            },
            None => {},
        }
        search_from = next;
    }
}


/// An avatar taken from a multipart body.
#[derive(Debug)]
pub struct AvatarUpload {
    pub filename: String,
    pub content_type: String,
    pub content: Vec<u8>,
}

/// `s` without the prefix `p` when it has it (`strip_prefix(p).unwrap_or(s)`).
pub open spec fn trim_prefix_spec(s: Seq<u8>, p: Seq<u8>) -> Seq<u8> {
    if has_prefix(s, p) {
        s.skip(p.len() as int)
    } else {
        s
    }
}

/// `s` without the suffix `p` when it has it (`strip_suffix(p).unwrap_or(s)`).
pub open spec fn trim_suffix_spec(s: Seq<u8>, p: Seq<u8>) -> Seq<u8> {
    if has_suffix(s, p) {
        s.take(s.len() - p.len())
    } else {
        s
    }
}

/// `value` without `prefix` when it starts with it.
pub fn trim_prefix<'a>(value: &'a [u8], prefix: &[u8]) -> (r: &'a [u8])
    ensures
        r@ == trim_prefix_spec(value@, prefix@),
{
    if starts_with_bytes(value, prefix) {
        let r = &value[prefix.len()..value.len()];
        assert(r@ =~= value@.skip(prefix@.len() as int));
        r
    } else {
        value
    }
}

/// `value` without `suffix` when it ends with it.
pub fn trim_suffix<'a>(value: &'a [u8], suffix: &[u8]) -> (r: &'a [u8])
    ensures
        r@ == trim_suffix_spec(value@, suffix@),
{
    if ends_with_bytes(value, suffix) {
        let r = &value[0..value.len() - suffix.len()];
        assert(r@ =~= value@.take(value@.len() - suffix@.len()));
        r
    } else {
        value
    }
}

/// The file name and content type that the header lines give, starting from
/// `filename` and `content_type`: a `content-disposition:` line may set the
/// file name, a `content-type:` line with a non-empty value sets the type.
pub open spec fn scan_avatar_lines(
    lines: Seq<Seq<char>>,
    filename: Seq<char>,
    content_type: Seq<char>,
) -> (Seq<char>, Seq<char>)
    decreases lines.len(),
{
    if lines.len() == 0 {
        (filename, content_type)
    } else {
        let line = lines[0];
        let lower = ascii_lower_seq(line);
        if has_prefix(lower, "content-disposition:"@) {
            let f = match disposition_spec(line, "filename"@) {
                Some(v) => v,
                None => filename,
            };
            scan_avatar_lines(lines.drop_first(), f, content_type)
        } else if has_prefix(lower, "content-type:"@) {
            let c = match split_once(line, ':') {
                Some(kv) => if trim(kv.1).len() > 0 {
                    trim(kv.1)
                } else {
                    content_type
                },
                None => content_type,
            };
            scan_avatar_lines(lines.drop_first(), filename, c)
        } else {
            scan_avatar_lines(lines.drop_first(), filename, content_type)
        }
    }
}

/// The avatar in one section: its headers end at the first `"\r\n\r\n"` and
/// must hold `name="avatar"`; the content follows, without one trailing
/// `"\r\n"`; the name defaults to `avatar.png`, the type to `image/png`.
pub open spec fn avatar_from_section(section: Seq<u8>) -> Option<(Seq<char>, Seq<char>, Seq<u8>)> {
    match find_first(section, crlf2()) {
        Some(he) => {
            let headers = utf8_lossy_text(section.take(he));
            if occurs_in(headers, "name=\"avatar\""@) {
                let meta = scan_avatar_lines(lines_spec(headers), "avatar.png"@, "image/png"@);
                Some((meta.0, meta.1, trim_suffix_spec(section.skip(he + 4), crlf())))
            } else {
                None
            }
        },
        None => None,
    }
}

/// A section between two markers, without a leading `"\r\n"`, a trailing
/// `"\r\n"` and then a trailing `--`.
pub open spec fn trim_section(section: Seq<u8>) -> Seq<u8> {
    trim_suffix_spec(trim_suffix_spec(trim_prefix_spec(section, crlf()), crlf()), dashes())
}

/// The scan for the avatar from byte `offset`: each section runs from the
/// end of one marker to the start of the next; the first section that holds
/// the avatar field is the result; the scan ends where no further marker
/// follows.
pub open spec fn avatar_scan(body: Seq<u8>, marker: Seq<u8>, offset: int) -> Option<
    (Seq<char>, Seq<char>, Seq<u8>),
>
    decreases body.len() - offset,
{
    if offset < 0 || offset > body.len() || marker.len() == 0 {
        None
    } else {
        match find_first(body.skip(offset), marker) {
            None => None,
            Some(start) => {
                let ss = offset + start + marker.len();
                match find_first(body.skip(ss), marker) {
                    None => None,
                    Some(next) => {
                        let end = ss + next;
                        if !(offset < end <= body.len()) {
                            None
                        } else {
                            match avatar_from_section(trim_section(body.subrange(ss, end))) {
                                Some(u) => Some(u),
                                None => avatar_scan(body, marker, end),
                            }
                        }
                    },
                }
            },
        }
    }
}

/// The view of an avatar upload.
pub open spec fn avatar_view(u: AvatarUpload) -> (Seq<char>, Seq<char>, Seq<u8>) {
    (u.filename@, u.content_type@, u.content@)
}

fn scan_avatar_lines_exec(lines: &Vec<Vec<char>>) -> (r: (String, String))
    ensures
        (r.0@, r.1@) == scan_avatar_lines(views(lines@), "avatar.png"@, "image/png"@),
{
    let ghost lv = views(lines@);
    let mut filename = owned("avatar.png");
    let mut content_type = owned("image/png");
    let cd = chars_of("content-disposition:");
    let ctp = chars_of("content-type:");
    let mut j: usize = 0;
    assert(lv.skip(0) =~= lv);
    while j < lines.len()
        invariant
            lv == views(lines@),
            j <= lines@.len(),
            cd@ == "content-disposition:"@,
            ctp@ == "content-type:"@,
            scan_avatar_lines(lv, "avatar.png"@, "image/png"@) == scan_avatar_lines(
                lv.skip(j as int),
                filename@,
                content_type@,
            ),
        decreases lines@.len() - j,
    {
        let line = &lines[j];
        assert(lv[j as int] == line@);
        assert(lv.skip(j as int)[0] == lv[j as int]);
        assert(lv.skip(j as int).drop_first() =~= lv.skip(j + 1));
        let lower = ascii_lowercase(line.as_slice());
        if starts_with_chars(lower.as_slice(), cd.as_slice()) {
            match disposition_param_chars(line.as_slice(), "filename") {
                Some(v) => {
                    filename = v;
                },
                None => {},
            }
        } else if starts_with_chars(lower.as_slice(), ctp.as_slice()) {
            match split_once_chars(line.as_slice(), ':') {
                Some(kv) => {
                    let v = trim_chars(kv.1.as_slice());
                    if v.len() > 0 {
                        content_type = string_of(v.as_slice());
                    }
                },
                None => {},
            }
        }
        j = j + 1;
    }
    assert(lv.skip(j as int) =~= Seq::<Seq<char>>::empty());
    (filename, content_type)
}

fn avatar_from_section_exec(section: &[u8]) -> (r: Option<AvatarUpload>)
    ensures
        match avatar_from_section(section@) {
            Some(u) => r matches Some(x) && avatar_view(x) == u,
            None => r is None,
        },
{
    let sep: [u8; 4] = [13, 10, 13, 10];
    assert(sep@ =~= crlf2());
    let f = find_bytes(section, sep.as_slice());
    proof {
        lemma_find_first(section@, crlf2(), f);
    }
    let he = match f {
        Some(i) => i,
        None => {
            return None;
        },
    };
    assert(occurs_at(section@, crlf2(), he as int));
    let head = &section[0..he];
    assert(head@ =~= section@.take(he as int));
    let raw_headers = utf8_lossy(head);
    let hchars = chars_of(raw_headers.as_str());
    let key = chars_of("name=\"avatar\"");
    if !contains_chars(hchars.as_slice(), key.as_slice()) {
        return None;
    }
    let lines = lines_of(hchars.as_slice());
    let meta = scan_avatar_lines_exec(&lines);
    let sl = section.len();
    let cr: [u8; 2] = [13, 10];
    assert(cr@ =~= crlf());
    let body = &section[he + 4..sl];
    assert(body@ =~= section@.skip(he + 4));
    let end = if ends_with_bytes(body, cr.as_slice()) {
        sl - 2
    } else {
        sl
    };
    let content = copy_bytes(section, he + 4, end);
    assert(content@ =~= trim_suffix_spec(section@.skip(he + 4), crlf()));
    Some(AvatarUpload { filename: meta.0, content_type: meta.1, content })
}

/// The avatar field of a multipart `body` with `boundary`.
pub fn parse_avatar_multipart(body: &[u8], boundary: &str) -> (r: Option<AvatarUpload>)
    ensures
        match avatar_scan(body@, marker_spec(boundary@), 0) {
            Some(u) => r matches Some(x) && avatar_view(x) == u,
            None => r is None,
        },
{
    let marker = marker_bytes(boundary);
    let ghost m = marker@;
    let bl = body.len();
    let cr: [u8; 2] = [13, 10];
    let dd: [u8; 2] = [45, 45];
    assert(cr@ =~= crlf());
    assert(dd@ =~= dashes());
    let mut offset: usize = 0;
    loop
        invariant
            m == marker@,
            m == marker_spec(boundary@),
            m.len() >= 2,
            bl == body@.len(),
            offset <= bl,
            avatar_scan(body@, m, 0) == avatar_scan(body@, m, offset as int),
            cr@ == crlf(),
            dd@ == dashes(),
        decreases bl - offset,
    {
        let rest = &body[offset..bl];
        assert(rest@ =~= body@.skip(offset as int));
        let found = find_bytes(rest, marker.as_slice());
        proof {
            lemma_find_first(rest@, m, found);
        }
        let start = match found {
            Some(x) => x,
            None => {
                return None;
            },
        };
        assert(occurs_at(rest@, m, start as int));
        let section_start = offset + start + marker.len();
        let tail = &body[section_start..bl];
        assert(tail@ =~= body@.skip(section_start as int));
        let found_next = find_bytes(tail, marker.as_slice());
        proof {
            lemma_find_first(tail@, m, found_next);
        }
        let next = match found_next {
            Some(k) => k,
            None => {
                return None;
            },
        };
        assert(occurs_at(tail@, m, next as int));
        let end = section_start + next;
        let raw = &body[section_start..end];
        let section = trim_prefix(raw, cr.as_slice());
        let section = trim_suffix(section, cr.as_slice());
        let section = trim_suffix(section, dd.as_slice());
        assert(section@ =~= trim_section(body@.subrange(section_start as int, end as int)));
        match avatar_from_section_exec(section) {
            Some(upload) => {
                return Some(upload);
            },
            None => {},
        }
        offset = end;
    }
}


/// Why an image upload was refused.
#[derive(Debug)]
pub enum ImageUploadError {
    InvalidUpload,
    MissingImage,
}

impl ImageUploadError {
    /// The status, message and error code that answer this refusal.
    pub fn response(&self) -> (r: (u16, &'static str, &'static str))
        ensures
            r.0 == 400,
            r.2@ == "invalid_image"@,
            *self is InvalidUpload ==> r.1@ == "invalid image upload"@,
            *self is MissingImage ==> r.1@ == "image is required"@,
    {
        match self {
            ImageUploadError::InvalidUpload => (400, "invalid image upload", "invalid_image"),
            ImageUploadError::MissingImage => (400, "image is required", "invalid_image"),
        }
    }
}

/// The status that answers an AI search error with code `code`: 503 when
/// the search is not configured, 400 for an unusable image, 502 otherwise.
pub open spec fn ai_error_status_spec(code: Seq<char>) -> u16 {
    if code == "not_configured"@ {
        503
    } else if code == "invalid_image"@ {
        400
    } else {
        502
    }
}

/// The status that answers an AI search error with code `code`.
pub fn ai_error_status(code: &str) -> (r: u16)
    ensures
        r == ai_error_status_spec(code@),
{
    let c = chars_of(code);
    let not_configured = chars_of("not_configured");
    let invalid_image = chars_of("invalid_image");
    if chars_eq(c.as_slice(), not_configured.as_slice()) {
        503
    } else if chars_eq(c.as_slice(), invalid_image.as_slice()) {
        400
    } else {
        502
    }
}

/// Whether an AI search error only says that nothing was found (answered
/// with an empty suggestion).
pub fn is_no_result(code: &str) -> (r: bool)
    ensures
        r == (code@ == "no_result"@),
{
    let c = chars_of(code);
    let no_result = chars_of("no_result");
    chars_eq(c.as_slice(), no_result.as_slice())
}

/// The largest image upload accepted: 8 MiB.
pub const MAX_UPLOAD_SIZE: usize = 8388608;

/// The outcome of parsing an image upload, as `parse_image_upload` gives it.
pub open spec fn image_upload_spec(content_type: Seq<char>, body: Seq<u8>) -> Result<
    (Seq<u8>, Option<Seq<char>>, Option<Seq<char>>),
    ImageUploadError,
> {
    if body.len() > MAX_UPLOAD_SIZE {
        Err(ImageUploadError::InvalidUpload)
    } else {
        match boundary_spec(content_type) {
            None => Err(ImageUploadError::InvalidUpload),
            Some(b) => match field_scan(body, marker_spec(b), "image"@, 0) {
                None => Err(ImageUploadError::MissingImage),
                Some(u) => if u.0.len() == 0 {
                    Err(ImageUploadError::MissingImage)
                } else {
                    Ok(u)
                },
            },
        }
    }
}

/// The `image` field of a multipart upload with `Content-Type` value
/// `content_type` (empty when the header is missing or not visible ASCII).
pub fn parse_image_upload(content_type: &str, body: &[u8]) -> (r: Result<ImageUpload, ImageUploadError>)
    ensures
        match image_upload_spec(content_type@, body@) {
            Ok(u) => r matches Ok(x) && upload_view(x) == u && x.bytes_for_mime@ == x.bytes@,
            Err(ImageUploadError::InvalidUpload) => r matches Err(ImageUploadError::InvalidUpload),
            Err(ImageUploadError::MissingImage) => r matches Err(ImageUploadError::MissingImage),
        },
{
    if body.len() > MAX_UPLOAD_SIZE {
        return Err(ImageUploadError::InvalidUpload);
    }
    let boundary = match multipart_boundary(content_type) {
        Some(b) => b,
        None => {
            return Err(ImageUploadError::InvalidUpload);
        },
    };
    let part = match find_multipart_field(body, boundary.as_str(), "image") {
        Some(p) => p,
        None => {
            return Err(ImageUploadError::MissingImage);
        },
    };
    if part.bytes.len() == 0 {
        return Err(ImageUploadError::MissingImage);
    }
    Ok(part)
}

/// What `Path::new(name).extension()` gives for a file name, as text.
pub uninterp spec fn path_extension_text(name: Seq<char>) -> Option<Seq<char>>;

/// `Path::new(name).extension()` converted to text: the part of the file
/// name after its last `.`, if any. Claimed: the result is the named
/// extension of `name`.
#[verifier::external_body]
pub(crate) fn path_extension(name: &str) -> (r: Option<String>)
    ensures
        opt_string_view(r) == path_extension_text(name@),
{
    std::path::Path::new(name).extension().and_then(|value| value.to_str()).map(|value| value.to_string())
}

/// The PNG signature.
pub open spec fn png_magic() -> Seq<u8> {
    seq![0x89u8, 0x50u8, 0x4Eu8, 0x47u8, 0x0Du8, 0x0Au8, 0x1Au8, 0x0Au8]
}

/// The JPEG start-of-image marker.
pub open spec fn jpeg_magic() -> Seq<u8> {
    seq![0xFFu8, 0xD8u8, 0xFFu8]
}

/// The MIME type of an uploaded image: from the declared content type, else
/// the file extension, else the leading bytes, else JPEG.
pub open spec fn mime_type_spec(filename: Seq<char>, content_type: Seq<char>, bytes: Seq<u8>) -> Seq<char> {
    let ct = unicode_lowercase(trim(content_type));
    let ext = unicode_lowercase(
        match path_extension_text(filename) {
            Some(e) => e,
            None => Seq::empty(),
        },
    );
    if ct == "image/png"@ {
        "image/png"@
    } else if ct == "image/webp"@ {
        "image/webp"@
    } else if ct == "image/jpeg"@ || ct == "image/jpg"@ {
        "image/jpeg"@
    } else if ext == "png"@ {
        "image/png"@
    } else if ext == "webp"@ {
        "image/webp"@
    } else if ext == "jpg"@ || ext == "jpeg"@ {
        "image/jpeg"@
    } else if has_prefix(bytes, png_magic()) {
        "image/png"@
    } else if has_prefix(bytes, jpeg_magic()) {
        "image/jpeg"@
    } else if bytes.len() >= 12 && bytes.take(4) == seq![0x52u8, 0x49u8, 0x46u8, 0x46u8]
        && bytes.subrange(8, 12) == seq![0x57u8, 0x45u8, 0x42u8, 0x50u8] {
        "image/webp"@
    } else {
        "image/jpeg"@
    }
}

fn is_text(v: &[char], lit: &str) -> (b: bool)
    ensures
        b == (v@ == lit@),
{
    let l = chars_of(lit);
    chars_eq(v, l.as_slice())
}

/// The MIME type of an image upload.
pub fn detect_image_mime_type(filename: &str, content_type: &str, image_bytes: &[u8]) -> (r: String)
    ensures
        r@ == mime_type_spec(filename@, content_type@, image_bytes@),
{
    let t = trim_str(content_type);
    let ts = string_of(t.as_slice());
    let ct_s = to_lowercase(ts.as_str());
    let ct = chars_of(ct_s.as_str());
    if is_text(ct.as_slice(), "image/png") {
        return owned("image/png");
    }
    if is_text(ct.as_slice(), "image/webp") {
        return owned("image/webp");
    }
    if is_text(ct.as_slice(), "image/jpeg") || is_text(ct.as_slice(), "image/jpg") {
        return owned("image/jpeg");
    }
    let raw_ext = match path_extension(filename) {
        Some(e) => e,
        None => String::new(),
    };
    let ext_s = to_lowercase(raw_ext.as_str());
    let ext = chars_of(ext_s.as_str());
    if is_text(ext.as_slice(), "png") {
        return owned("image/png");
    }
    if is_text(ext.as_slice(), "webp") {
        return owned("image/webp");
    }
    if is_text(ext.as_slice(), "jpg") || is_text(ext.as_slice(), "jpeg") {
        return owned("image/jpeg");
    }
    let png: [u8; 8] = [0x89, 0x50, 0x4E, 0x47, 0x0D, 0x0A, 0x1A, 0x0A];
    assert(png@ =~= png_magic());
    if starts_with_bytes(image_bytes, png.as_slice()) {
        return owned("image/png");
    }
    let jpg: [u8; 3] = [0xFF, 0xD8, 0xFF];
    assert(jpg@ =~= jpeg_magic());
    if starts_with_bytes(image_bytes, jpg.as_slice()) {
        return owned("image/jpeg");
    }
    if image_bytes.len() >= 12 && image_bytes[0] == 0x52 && image_bytes[1] == 0x49
        && image_bytes[2] == 0x46 && image_bytes[3] == 0x46 && image_bytes[8] == 0x57
        && image_bytes[9] == 0x45 && image_bytes[10] == 0x42 && image_bytes[11] == 0x50 {
        assert(image_bytes@.take(4) =~= seq![0x52u8, 0x49u8, 0x46u8, 0x46u8]);
        assert(image_bytes@.subrange(8, 12) =~= seq![0x57u8, 0x45u8, 0x42u8, 0x50u8]);
        return owned("image/webp");
    }
    proof {
        if image_bytes@.len() >= 12 && image_bytes@.take(4) == seq![0x52u8, 0x49u8, 0x46u8, 0x46u8]
            && image_bytes@.subrange(8, 12) == seq![0x57u8, 0x45u8, 0x42u8, 0x50u8] {
            assert(image_bytes@.take(4)[0] == image_bytes@[0]);
            assert(image_bytes@.take(4)[1] == image_bytes@[1]);
            assert(image_bytes@.take(4)[2] == image_bytes@[2]);
            assert(image_bytes@.take(4)[3] == image_bytes@[3]);
            assert(image_bytes@.subrange(8, 12)[0] == image_bytes@[8]);
            assert(image_bytes@.subrange(8, 12)[1] == image_bytes@[9]);
            assert(image_bytes@.subrange(8, 12)[2] == image_bytes@[10]);
            assert(image_bytes@.subrange(8, 12)[3] == image_bytes@[11]);
        }
    }
    owned("image/jpeg")
}


/// The declared content type of an upload, trimmed and lowercased.
pub open spec fn declared_type(content_type: Seq<char>) -> Seq<char> {
    unicode_lowercase(trim(content_type))
}

/// The extension of an upload's file name, lowercased (empty when none).
pub open spec fn name_extension(filename: Seq<char>) -> Seq<char> {
    unicode_lowercase(
        match path_extension_text(filename) {
            Some(e) => e,
            None => Seq::empty(),
        },
    )
}

/// Whether a declared type names an image type that is taken as is.
pub open spec fn declares_image(ct: Seq<char>) -> bool {
    ct == "image/png"@ || ct == "image/webp"@ || ct == "image/jpeg"@ || ct == "image/jpg"@
}


/// An image's MIME type is the one its upload declares when that is an
/// image type: `image/png`, `image/webp`, and `image/jpeg` for both
/// `image/jpeg` and `image/jpg`, whatever the name and bytes say.
pub proof fn law_mime_follows_declared_type(filename: Seq<char>, content_type: Seq<char>, bytes: Seq<u8>)
    ensures
        ({
            let ct = declared_type(content_type);
            let r = mime_type_spec(filename, content_type, bytes);
            &&& (ct == "image/png"@ || ct == "image/webp"@ || ct == "image/jpeg"@) ==> r == ct
            &&& ct == "image/jpg"@ ==> r == "image/jpeg"@
        }),
{
    reveal_strlit("image/png");
    assert("image/png"@.len() == 9 && "image/png"@[0] == 'i' && "image/png"@[1] == 'm' && "image/png"@[2] == 'a' && "image/png"@[3] == 'g' && "image/png"@[4] == 'e' && "image/png"@[5] == '/' && "image/png"@[6] == 'p' && "image/png"@[7] == 'n' && "image/png"@[8] == 'g');
    reveal_strlit("image/webp");
    assert("image/webp"@.len() == 10 && "image/webp"@[0] == 'i' && "image/webp"@[1] == 'm' && "image/webp"@[2] == 'a' && "image/webp"@[3] == 'g' && "image/webp"@[4] == 'e' && "image/webp"@[5] == '/' && "image/webp"@[6] == 'w' && "image/webp"@[7] == 'e' && "image/webp"@[8] == 'b' && "image/webp"@[9] == 'p');
    reveal_strlit("image/jpeg");
    assert("image/jpeg"@.len() == 10 && "image/jpeg"@[0] == 'i' && "image/jpeg"@[1] == 'm' && "image/jpeg"@[2] == 'a' && "image/jpeg"@[3] == 'g' && "image/jpeg"@[4] == 'e' && "image/jpeg"@[5] == '/' && "image/jpeg"@[6] == 'j' && "image/jpeg"@[7] == 'p' && "image/jpeg"@[8] == 'e' && "image/jpeg"@[9] == 'g');
    reveal_strlit("image/jpg");
    assert("image/jpg"@.len() == 9 && "image/jpg"@[0] == 'i' && "image/jpg"@[1] == 'm' && "image/jpg"@[2] == 'a' && "image/jpg"@[3] == 'g' && "image/jpg"@[4] == 'e' && "image/jpg"@[5] == '/' && "image/jpg"@[6] == 'j' && "image/jpg"@[7] == 'p' && "image/jpg"@[8] == 'g');
    reveal_strlit("png");
    assert("png"@.len() == 3 && "png"@[0] == 'p' && "png"@[1] == 'n' && "png"@[2] == 'g');
    reveal_strlit("webp");
    assert("webp"@.len() == 4 && "webp"@[0] == 'w' && "webp"@[1] == 'e' && "webp"@[2] == 'b' && "webp"@[3] == 'p');
    reveal_strlit("jpg");
    assert("jpg"@.len() == 3 && "jpg"@[0] == 'j' && "jpg"@[1] == 'p' && "jpg"@[2] == 'g');
    reveal_strlit("jpeg");
    assert("jpeg"@.len() == 4 && "jpeg"@[0] == 'j' && "jpeg"@[1] == 'p' && "jpeg"@[2] == 'e' && "jpeg"@[3] == 'g');
    reveal_strlit("image/");
    assert("image/"@.len() == 6 && "image/"@[0] == 'i' && "image/"@[1] == 'm' && "image/"@[2] == 'a' && "image/"@[3] == 'g' && "image/"@[4] == 'e' && "image/"@[5] == '/');
    assert("image/"@ + "png"@ =~= "image/png"@);
    assert("image/"@ + "webp"@ =~= "image/webp"@);
    assert("image/"@ + "jpeg"@ =~= "image/jpeg"@);
}

/// Without a declared image type, the file name's extension decides: `png`,
/// `webp` and `jpeg` give `image/` and that extension, and `jpg` gives
/// `image/jpeg`, in any letter case.
pub proof fn law_mime_follows_extension(filename: Seq<char>, content_type: Seq<char>, bytes: Seq<u8>)
    requires
        !declares_image(declared_type(content_type)),
    ensures
        ({
            let e = name_extension(filename);
            let r = mime_type_spec(filename, content_type, bytes);
            &&& (e == "png"@ || e == "webp"@ || e == "jpeg"@) ==> r == "image/"@ + e
            &&& e == "jpg"@ ==> r == "image/"@ + "jpeg"@
        }),
{
    reveal_strlit("image/png");
    assert("image/png"@.len() == 9 && "image/png"@[0] == 'i' && "image/png"@[1] == 'm' && "image/png"@[2] == 'a' && "image/png"@[3] == 'g' && "image/png"@[4] == 'e' && "image/png"@[5] == '/' && "image/png"@[6] == 'p' && "image/png"@[7] == 'n' && "image/png"@[8] == 'g');
    reveal_strlit("image/webp");
    assert("image/webp"@.len() == 10 && "image/webp"@[0] == 'i' && "image/webp"@[1] == 'm' && "image/webp"@[2] == 'a' && "image/webp"@[3] == 'g' && "image/webp"@[4] == 'e' && "image/webp"@[5] == '/' && "image/webp"@[6] == 'w' && "image/webp"@[7] == 'e' && "image/webp"@[8] == 'b' && "image/webp"@[9] == 'p');
    reveal_strlit("image/jpeg");
    assert("image/jpeg"@.len() == 10 && "image/jpeg"@[0] == 'i' && "image/jpeg"@[1] == 'm' && "image/jpeg"@[2] == 'a' && "image/jpeg"@[3] == 'g' && "image/jpeg"@[4] == 'e' && "image/jpeg"@[5] == '/' && "image/jpeg"@[6] == 'j' && "image/jpeg"@[7] == 'p' && "image/jpeg"@[8] == 'e' && "image/jpeg"@[9] == 'g');
    reveal_strlit("image/jpg");
    assert("image/jpg"@.len() == 9 && "image/jpg"@[0] == 'i' && "image/jpg"@[1] == 'm' && "image/jpg"@[2] == 'a' && "image/jpg"@[3] == 'g' && "image/jpg"@[4] == 'e' && "image/jpg"@[5] == '/' && "image/jpg"@[6] == 'j' && "image/jpg"@[7] == 'p' && "image/jpg"@[8] == 'g');
    reveal_strlit("png");
    assert("png"@.len() == 3 && "png"@[0] == 'p' && "png"@[1] == 'n' && "png"@[2] == 'g');
    reveal_strlit("webp");
    assert("webp"@.len() == 4 && "webp"@[0] == 'w' && "webp"@[1] == 'e' && "webp"@[2] == 'b' && "webp"@[3] == 'p');
    reveal_strlit("jpg");
    assert("jpg"@.len() == 3 && "jpg"@[0] == 'j' && "jpg"@[1] == 'p' && "jpg"@[2] == 'g');
    reveal_strlit("jpeg");
    assert("jpeg"@.len() == 4 && "jpeg"@[0] == 'j' && "jpeg"@[1] == 'p' && "jpeg"@[2] == 'e' && "jpeg"@[3] == 'g');
    reveal_strlit("image/");
    assert("image/"@.len() == 6 && "image/"@[0] == 'i' && "image/"@[1] == 'm' && "image/"@[2] == 'a' && "image/"@[3] == 'g' && "image/"@[4] == 'e' && "image/"@[5] == '/');
    assert("image/"@ + "png"@ =~= "image/png"@);
    assert("image/"@ + "webp"@ =~= "image/webp"@);
    assert("image/"@ + "jpeg"@ =~= "image/jpeg"@);
}

/// Without a declared image type or a known extension, the leading bytes
/// decide: the PNG signature gives `image/png`, the JPEG marker
/// `image/jpeg`, a RIFF/WEBP header `image/webp`, and anything else
/// `image/jpeg`.
pub proof fn law_mime_follows_bytes(filename: Seq<char>, content_type: Seq<char>, bytes: Seq<u8>)
    requires
        !declares_image(declared_type(content_type)),
        ({
            let e = name_extension(filename);
            e != "png"@ && e != "webp"@ && e != "jpg"@ && e != "jpeg"@
        }),
    ensures
        ({
            let r = mime_type_spec(filename, content_type, bytes);
            let riff = bytes.len() >= 12 && bytes.take(4) == seq![0x52u8, 0x49u8, 0x46u8, 0x46u8]
                && bytes.subrange(8, 12) == seq![0x57u8, 0x45u8, 0x42u8, 0x50u8];
            &&& has_prefix(bytes, png_magic()) ==> r == "image/png"@
            &&& !has_prefix(bytes, png_magic()) && has_prefix(bytes, jpeg_magic()) ==> r == "image/jpeg"@
            &&& !has_prefix(bytes, png_magic()) && !has_prefix(bytes, jpeg_magic()) && riff ==> r == "image/webp"@
            &&& !has_prefix(bytes, png_magic()) && !has_prefix(bytes, jpeg_magic()) && !riff ==> r == "image/jpeg"@
        }),
{
    reveal_strlit("image/png");
    assert("image/png"@.len() == 9 && "image/png"@[0] == 'i' && "image/png"@[1] == 'm' && "image/png"@[2] == 'a' && "image/png"@[3] == 'g' && "image/png"@[4] == 'e' && "image/png"@[5] == '/' && "image/png"@[6] == 'p' && "image/png"@[7] == 'n' && "image/png"@[8] == 'g');
    reveal_strlit("image/webp");
    assert("image/webp"@.len() == 10 && "image/webp"@[0] == 'i' && "image/webp"@[1] == 'm' && "image/webp"@[2] == 'a' && "image/webp"@[3] == 'g' && "image/webp"@[4] == 'e' && "image/webp"@[5] == '/' && "image/webp"@[6] == 'w' && "image/webp"@[7] == 'e' && "image/webp"@[8] == 'b' && "image/webp"@[9] == 'p');
    reveal_strlit("image/jpeg");
    assert("image/jpeg"@.len() == 10 && "image/jpeg"@[0] == 'i' && "image/jpeg"@[1] == 'm' && "image/jpeg"@[2] == 'a' && "image/jpeg"@[3] == 'g' && "image/jpeg"@[4] == 'e' && "image/jpeg"@[5] == '/' && "image/jpeg"@[6] == 'j' && "image/jpeg"@[7] == 'p' && "image/jpeg"@[8] == 'e' && "image/jpeg"@[9] == 'g');
    reveal_strlit("image/jpg");
    assert("image/jpg"@.len() == 9 && "image/jpg"@[0] == 'i' && "image/jpg"@[1] == 'm' && "image/jpg"@[2] == 'a' && "image/jpg"@[3] == 'g' && "image/jpg"@[4] == 'e' && "image/jpg"@[5] == '/' && "image/jpg"@[6] == 'j' && "image/jpg"@[7] == 'p' && "image/jpg"@[8] == 'g');
    reveal_strlit("png");
    assert("png"@.len() == 3 && "png"@[0] == 'p' && "png"@[1] == 'n' && "png"@[2] == 'g');
    reveal_strlit("webp");
    assert("webp"@.len() == 4 && "webp"@[0] == 'w' && "webp"@[1] == 'e' && "webp"@[2] == 'b' && "webp"@[3] == 'p');
    reveal_strlit("jpg");
    assert("jpg"@.len() == 3 && "jpg"@[0] == 'j' && "jpg"@[1] == 'p' && "jpg"@[2] == 'g');
    reveal_strlit("jpeg");
    assert("jpeg"@.len() == 4 && "jpeg"@[0] == 'j' && "jpeg"@[1] == 'p' && "jpeg"@[2] == 'e' && "jpeg"@[3] == 'g');
    reveal_strlit("image/");
    assert("image/"@.len() == 6 && "image/"@[0] == 'i' && "image/"@[1] == 'm' && "image/"@[2] == 'a' && "image/"@[3] == 'g' && "image/"@[4] == 'e' && "image/"@[5] == '/');
    assert("image/"@ + "png"@ =~= "image/png"@);
    assert("image/"@ + "webp"@ =~= "image/webp"@);
    assert("image/"@ + "jpeg"@ =~= "image/jpeg"@);
}

} // verus!
