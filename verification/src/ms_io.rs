//! Storage-side records: I/O errors, storage configuration, export cards
//! and file-name sanitising.

use vstd::prelude::*;
use vstd::utf8::{encode_scalar, encode_utf8};
use crate::text::{
    chars_of, is_space, lemma_encode_concat, push_str, skip_space_end, skip_space_start, string_of, sub_chars, trimmed,
    trimmed_end, trimmed_start,
};

verus! {

/// Errors of file, media, cloud and export operations.
#[derive(Debug)]
pub enum IoError {
    AtomicWriteFailed(String),
    UnsafePath(String),
    VaultNotFound(String),
    ImageDecodeFailed(String),
    ImageEncodeFailed(String),
    ImageResizeFailed(String),
    PayloadTooLarge(String),
    CloudConfigError(String),
    CloudUploadFailed(String),
    CloudDeleteFailed(String),
    CloudHeadFailed(String),
    ExportCreateFailed(String),
    ExportZipFailed(String),
    ExportFetchFailed(String),
    Io(std::io::Error),
    TaskPanic { reason: String },
}

/// The text that `Display` shows for an I/O error.
///
/// Wraps `<std::io::Error as Display>::fmt` through `to_string`; nothing is
/// claimed of the text.
#[verifier::external_body]
pub(crate) fn io_text(e: &std::io::Error) -> String {
    e.to_string()
}

/// The prefix of the message of each kind of [`IoError`] but `Io` and `TaskPanic`.
pub open spec fn io_error_prefix(e: IoError) -> Seq<char> {
    match e {
        IoError::AtomicWriteFailed(_) => "原子写入失败: "@,
        IoError::UnsafePath(_) => "路径不安全: "@,
        IoError::VaultNotFound(_) => "Vault 目录不存在: "@,
        IoError::ImageDecodeFailed(_) => "图片解码失败: "@,
        IoError::ImageEncodeFailed(_) => "图片编码失败: "@,
        IoError::ImageResizeFailed(_) => "图片缩放失败: "@,
        IoError::PayloadTooLarge(_) => "输入数据过大: "@,
        IoError::CloudConfigError(_) => "云存储配置错误: "@,
        IoError::CloudUploadFailed(_) => "上传失败: "@,
        IoError::CloudDeleteFailed(_) => "删除失败: "@,
        IoError::CloudHeadFailed(_) => "查询失败: "@,
        IoError::ExportCreateFailed(_) => "导出文件创建失败: "@,
        IoError::ExportZipFailed(_) => "ZIP 写入失败: "@,
        IoError::ExportFetchFailed(_) => "数据拉取失败: "@,
        IoError::Io(_) => "IO 错误: "@,
        IoError::TaskPanic { .. } => "任务崩溃: "@,
    }
}

/// The text an [`IoError`] carries (the reason of a panic; nothing for `Io`).
pub open spec fn io_error_detail(e: IoError) -> Seq<char> {
    match e {
        IoError::AtomicWriteFailed(m) => m@,
        IoError::UnsafePath(m) => m@,
        IoError::VaultNotFound(m) => m@,
        IoError::ImageDecodeFailed(m) => m@,
        IoError::ImageEncodeFailed(m) => m@,
        IoError::ImageResizeFailed(m) => m@,
        IoError::PayloadTooLarge(m) => m@,
        IoError::CloudConfigError(m) => m@,
        IoError::CloudUploadFailed(m) => m@,
        IoError::CloudDeleteFailed(m) => m@,
        IoError::CloudHeadFailed(m) => m@,
        IoError::ExportCreateFailed(m) => m@,
        IoError::ExportZipFailed(m) => m@,
        IoError::ExportFetchFailed(m) => m@,
        IoError::Io(_) => Seq::empty(),
        IoError::TaskPanic { reason } => reason@,
    }
}

impl IoError {
    /// The human-readable message: the kind's prefix and the carried text
    /// (the I/O error's own text for `Io`).
    pub fn message(&self) -> (r: String)
        ensures
            !(self is Io) ==> r@ == io_error_prefix(*self) + io_error_detail(*self),
            self is Io ==> r@.len() >= io_error_prefix(*self).len()
                && r@.subrange(0, io_error_prefix(*self).len() as int) == io_error_prefix(*self),
    {
        let mut r = String::new();
        let detail: String = match self {
            IoError::AtomicWriteFailed(m) => { push_str(&mut r, "原子写入失败: "); m.clone() },
            IoError::UnsafePath(m) => { push_str(&mut r, "路径不安全: "); m.clone() },
            IoError::VaultNotFound(m) => { push_str(&mut r, "Vault 目录不存在: "); m.clone() },
            IoError::ImageDecodeFailed(m) => { push_str(&mut r, "图片解码失败: "); m.clone() },
            IoError::ImageEncodeFailed(m) => { push_str(&mut r, "图片编码失败: "); m.clone() },
            IoError::ImageResizeFailed(m) => { push_str(&mut r, "图片缩放失败: "); m.clone() },
            IoError::PayloadTooLarge(m) => { push_str(&mut r, "输入数据过大: "); m.clone() },
            IoError::CloudConfigError(m) => { push_str(&mut r, "云存储配置错误: "); m.clone() },
            IoError::CloudUploadFailed(m) => { push_str(&mut r, "上传失败: "); m.clone() },
            IoError::CloudDeleteFailed(m) => { push_str(&mut r, "删除失败: "); m.clone() },
            IoError::CloudHeadFailed(m) => { push_str(&mut r, "查询失败: "); m.clone() },
            IoError::ExportCreateFailed(m) => { push_str(&mut r, "导出文件创建失败: "); m.clone() },
            IoError::ExportZipFailed(m) => { push_str(&mut r, "ZIP 写入失败: "); m.clone() },
            IoError::ExportFetchFailed(m) => { push_str(&mut r, "数据拉取失败: "); m.clone() },
            IoError::Io(e) => { push_str(&mut r, "IO 错误: "); io_text(e) },
            IoError::TaskPanic { reason } => { push_str(&mut r, "任务崩溃: "); reason.clone() },
        };
        let ghost head = r@;
        push_str(&mut r, detail.as_str());
        assert(r@.subrange(0, head.len() as int) =~= head);
        r
    }
}

/// Connection settings of the object store.
#[derive(Debug, Clone)]
pub struct StorageConfig {
    pub endpoint: String,
    pub region: String,
    pub bucket: String,
    pub access_key: String,
    pub secret_key: String,
    pub public_url_base: Option<String>,
    pub use_path_style: bool,
}

/// A card to export: its category, title, Markdown and images.
#[derive(Debug, Clone)]
pub struct KbCard {
    pub category_name: String,
    pub title: String,
    pub raw_md: String,
    pub images: Vec<KbImage>,
}

/// An image of an exported card.
#[derive(Debug, Clone)]
pub struct KbImage {
    pub filename: String,
    pub data: Vec<u8>,
}

/// What an export wrote.
#[derive(Debug, Clone)]
pub struct ExportSummary {
    pub total_cards: usize,
    pub total_images: usize,
    pub zip_size_bytes: u64,
}

/// Characters that cannot appear in a file name on common systems.
pub open spec fn forbidden_in_name(c: char) -> bool {
    c == '/' || c == '\\' || c == ':' || c == '*' || c == '?' || c == '"' || c == '<' || c == '>' || c == '|'
}

/// The Unicode control characters (general category `Cc`), as
/// `char::is_control` documents them.
pub open spec fn is_control_char(c: char) -> bool {
    ('\u{0}' <= c && c <= '\u{1f}') || ('\u{7f}' <= c && c <= '\u{9f}')
}

/// A character of a name, with forbidden and control characters replaced by `_`.
pub open spec fn name_char(c: char) -> char {
    if forbidden_in_name(c) || is_control_char(c) { '_' } else { c }
}

/// `s` without its leading dots.
pub open spec fn without_leading_dots(s: Seq<char>) -> Seq<char>
    decreases s.len(),
{
    if s.len() > 0 && s[0] == '.' {
        without_leading_dots(s.drop_first())
    } else {
        s
    }
}

/// A name made safe as a file name: each character mapped by
/// [`name_char`], surrounding white space trimmed, leading dots removed.
pub open spec fn safe_file_name(name: Seq<char>) -> Seq<char> {
    without_leading_dots(trimmed(name.map_values(|c: char| name_char(c))))
}

/// Makes a name safe as a file name (see [`safe_file_name`]).
pub fn sanitize_filename(name: &str) -> (r: String)
    ensures
        r@ == safe_file_name(name@),
{
    let cs = chars_of(name);
    let mut mapped: Vec<char> = Vec::new();
    let mut i: usize = 0;
    while i < cs.len()
        invariant
            i <= cs@.len(),
            cs@ == name@,
            mapped@ == name@.take(i as int).map_values(|c: char| name_char(c)),
        decreases cs@.len() - i,
    {
        let c = cs[i];
        let d = if c == '/' || c == '\\' || c == ':' || c == '*' || c == '?' || c == '"' || c == '<' || c == '>'
            || c == '|' || ('\u{0}' <= c && c <= '\u{1f}') || ('\u{7f}' <= c && c <= '\u{9f}') {
            '_'
        } else {
            c
        };
        mapped.push(d);
        i = i + 1;
        assert(mapped@ =~= name@.take(i as int).map_values(|c: char| name_char(c)));
    }
    assert(name@.take(cs@.len() as int) =~= name@);
    let lo = skip_space_start(&mapped);
    let hi = skip_space_end(&mapped, lo);
    let mut k = lo;
    while k < hi && mapped[k] == '.'
        invariant
            lo <= k <= hi,
            hi <= mapped@.len(),
            without_leading_dots(mapped@.subrange(lo as int, hi as int))
                == without_leading_dots(mapped@.subrange(k as int, hi as int)),
        decreases hi - k,
    {
        assert(mapped@.subrange(k as int, hi as int).drop_first() =~= mapped@.subrange(k + 1, hi as int));
        k = k + 1;
    }
    let kept = sub_chars(&mapped, k, hi);
    string_of(&kept)
}


/// The value of a Base64 alphabet byte (`A`–`Z`, `a`–`z`, `0`–`9`, `+`, `/`).
pub open spec fn sextet(b: u8) -> Option<u8> {
    if 65 <= b <= 90 {
        Some((b - 65) as u8)
    } else if 97 <= b <= 122 {
        Some((b - 71) as u8)
    } else if 48 <= b <= 57 {
        Some((b + 4) as u8)
    } else if b == 43 {
        Some(62u8)
    } else if b == 47 {
        Some(63u8)
    } else {
        None
    }
}

/// The values of the alphabet bytes of a group, other bytes skipped.
pub open spec fn sextets(c: Seq<u8>) -> Seq<u8>
    decreases c.len(),
{
    if c.len() == 0 {
        Seq::empty()
    } else {
        match sextet(c.last()) {
            Some(v) => sextets(c.drop_last()).push(v),
            None => sextets(c.drop_last()),
        }
    }
}

/// The bytes that up to four values of a group decode to: the whole bytes
/// of their 6-bit concatenation, most significant first.
pub open spec fn group_bytes(v: Seq<u8>) -> Seq<u8> {
    if v.len() == 4 {
        let acc = v[0] * 262144 + v[1] * 4096 + v[2] * 64 + v[3];
        seq![(acc / 65536) as u8, ((acc / 256) % 256) as u8, (acc % 256) as u8]
    } else if v.len() == 3 {
        let acc = v[0] * 4096 + v[1] * 64 + v[2];
        seq![((acc / 1024) % 256) as u8, ((acc / 4) % 256) as u8]
    } else if v.len() == 2 {
        let acc = v[0] * 64 + v[1];
        seq![((acc / 16) % 256) as u8]
    } else {
        Seq::empty()
    }
}

/// Decoding groups of four bytes from index `i` on.
pub open spec fn decode_from(t: Seq<u8>, i: int) -> Seq<u8>
    decreases t.len() - i,
{
    if i < 0 || i >= t.len() {
        Seq::empty()
    } else {
        group_bytes(sextets(t.subrange(i, if i + 4 < t.len() { i + 4 } else { t.len() as int })))
            + if i + 4 < t.len() { decode_from(t, i + 4) } else { Seq::empty() }
    }
}

/// `s` without its trailing `=` characters.
pub open spec fn without_padding(s: Seq<char>) -> Seq<char>
    decreases s.len(),
{
    if s.len() > 0 && s.last() == '=' {
        without_padding(s.drop_last())
    } else {
        s
    }
}

/// The bytes Base64 text decodes to: padding removed, then each group of
/// four bytes decoded on its own, bytes outside the alphabet skipped.
pub open spec fn base64_bytes(s: Seq<char>) -> Seq<u8> {
    decode_from(encode_utf8(without_padding(s)), 0)
}

/// The value of a Base64 alphabet byte (see [`sextet`]).
fn sextet_of(b: u8) -> (r: Option<u8>)
    ensures
        r == sextet(b),
{
    if 65 <= b && b <= 90 {
        Some(b - 65)
    } else if 97 <= b && b <= 122 {
        Some(b - 71)
    } else if 48 <= b && b <= 57 {
        Some(b + 4)
    } else if b == 43 {
        Some(62)
    } else if b == 47 {
        Some(63)
    } else {
        None
    }
}

/// Appends the bytes of one group (see [`group_bytes`]).
fn push_group(out: &mut Vec<u8>, t: &[u8], lo: usize, hi: usize)
    requires
        lo <= hi <= t@.len(),
        hi - lo <= 4,
    ensures
        final(out)@ == old(out)@ + group_bytes(sextets(t@.subrange(lo as int, hi as int))),
{
    let mut v: Vec<u8> = Vec::new();
    let mut j = lo;
    while j < hi
        invariant
            lo <= j <= hi <= t@.len(),
            hi - lo <= 4,
            v@ == sextets(t@.subrange(lo as int, j as int)),
            v@.len() <= j - lo,
            forall|k: int| 0 <= k < v@.len() ==> v@[k] < 64,
        decreases hi - j,
    {
        assert(t@.subrange(lo as int, j + 1).drop_last() =~= t@.subrange(lo as int, j as int));
        match sextet_of(t[j]) {
            Some(x) => v.push(x),
            None => {},
        }
        j = j + 1;
    }
    if v.len() == 4 {
        let acc: u32 = (v[0] as u32) * 262144 + (v[1] as u32) * 4096 + (v[2] as u32) * 64 + (v[3] as u32);
        out.push((acc / 65536) as u8);
        out.push(((acc / 256) % 256) as u8);
        out.push((acc % 256) as u8);
    } else if v.len() == 3 {
        let acc: u32 = (v[0] as u32) * 4096 + (v[1] as u32) * 64 + (v[2] as u32);
        out.push(((acc / 1024) % 256) as u8);
        out.push(((acc / 4) % 256) as u8);
    } else if v.len() == 2 {
        let acc: u32 = (v[0] as u32) * 64 + (v[1] as u32);
        out.push(((acc / 16) % 256) as u8);
    }
    assert(out@ =~= old(out)@ + group_bytes(v@));
}

/// Decodes Base64 text (see [`base64_bytes`]).
pub fn base64_decode(input: &str) -> (r: Vec<u8>)
    ensures
        r@ == base64_bytes(input@),
{
    let cs = chars_of(input);
    let mut end = cs.len();
    assert(cs@.take(cs@.len() as int) =~= cs@);
    while end > 0 && cs[end - 1] == '='
        invariant
            end <= cs@.len(),
            cs@ == input@,
            without_padding(input@) == without_padding(cs@.take(end as int)),
        decreases end,
    {
        assert(cs@.take(end as int).drop_last() =~= cs@.take(end - 1));
        end = end - 1;
    }
    assert(cs@.take(cs@.len() as int) =~= cs@);
    let kept = sub_chars(&cs, 0, end);
    assert(kept@ =~= cs@.take(end as int));
    let text = string_of(&kept);
    let t = text.as_str().as_bytes();
    let ghost tb = t@;
    assert(tb == encode_utf8(without_padding(input@)));
    let mut out: Vec<u8> = Vec::new();
    let mut i: usize = 0;
    while i < t.len()
        invariant
            t@ == tb,
            i <= tb.len() || i % 4 == 0,
            out@ + decode_from(tb, i as int) == decode_from(tb, 0),
        decreases tb.len() - i,
    {
        let hi = if t.len() - i > 4 { i + 4 } else { t.len() };
        let ghost before = out@;
        push_group(&mut out, t, i, hi);
        if t.len() - i > 4 {
            assert(out@ + decode_from(tb, i + 4) =~= before + decode_from(tb, i as int));
            i = i + 4;
        } else {
            assert(out@ =~= before + decode_from(tb, i as int));
            i = t.len();
            assert(decode_from(tb, i as int) =~= Seq::<u8>::empty());
            assert(out@ + decode_from(tb, i as int) =~= out@);
        }
    }
    assert(decode_from(tb, i as int) =~= Seq::<u8>::empty());
    assert(out@ =~= decode_from(tb, 0));
    out
}

/// The Base64 alphabet character of a 6-bit value.
pub open spec fn alphabet(v: int) -> char {
    if v < 26 {
        (65 + v) as char
    } else if v < 52 {
        (71 + v) as char
    } else if v < 62 {
        (v - 4) as char
    } else if v == 62 {
        '+'
    } else {
        '/'
    }
}

/// The four characters a chunk of one to three bytes encodes to: the 6-bit
/// groups of the bytes taken as one 24-bit number, `=` where bytes are missing.
pub open spec fn chunk_text(c: Seq<u8>) -> Seq<char> {
    let b1: int = if c.len() > 1 { c[1] as int } else { 0 };
    let b2: int = if c.len() > 2 { c[2] as int } else { 0 };
    let t: int = c[0] * 65536 + b1 * 256 + b2;
    seq![
        alphabet((t / 262144) % 64),
        alphabet((t / 4096) % 64),
        if c.len() > 1 { alphabet((t / 64) % 64) } else { '=' },
        if c.len() > 2 { alphabet(t % 64) } else { '=' },
    ]
}

/// The Base64 text of the bytes from index `i` on, by chunks of three.
pub open spec fn encode_from(d: Seq<u8>, i: int) -> Seq<char>
    decreases d.len() - i,
{
    if i < 0 || i >= d.len() {
        Seq::empty()
    } else {
        chunk_text(d.subrange(i, if i + 3 < d.len() { i + 3 } else { d.len() as int }))
            + if i + 3 < d.len() { encode_from(d, i + 3) } else { Seq::empty() }
    }
}

/// The padded standard Base64 text of some bytes.
pub open spec fn base64_text(d: Seq<u8>) -> Seq<char> {
    encode_from(d, 0)
}

/// The alphabet character of a 6-bit value (see [`alphabet`]).
fn alphabet_char(v: u32) -> (c: char)
    requires
        v < 64,
    ensures
        c == alphabet(v as int),
{
    if v < 26 {
        ((65 + v) as u8) as char
    } else if v < 52 {
        ((71 + v) as u8) as char
    } else if v < 62 {
        ((v - 4) as u8) as char
    } else if v == 62 {
        '+'
    } else {
        '/'
    }
}

/// Encodes bytes as padded standard Base64 (see [`base64_text`]).
pub fn base64_encode(data: &[u8]) -> (r: String)
    ensures
        r@ == base64_text(data@),
{
    let mut out: Vec<char> = Vec::new();
    let mut i: usize = 0;
    while i < data.len()
        invariant
            i <= data@.len(),
            out@ + encode_from(data@, i as int) == encode_from(data@, 0),
        decreases data@.len() - i,
    {
        let rem = data.len() - i;
        let b0 = data[i] as u32;
        let b1: u32 = if rem > 1 { data[i + 1] as u32 } else { 0 };
        let b2: u32 = if rem > 2 { data[i + 2] as u32 } else { 0 };
        let triple: u32 = b0 * 65536 + b1 * 256 + b2;
        let hi: usize = if rem > 3 { i + 3 } else { data.len() };
        let ghost c = data@.subrange(i as int, hi as int);
        let ghost before = out@;
        let c0 = alphabet_char((triple / 262144) % 64);
        let c1 = alphabet_char((triple / 4096) % 64);
        let c2 = if rem > 1 { alphabet_char((triple / 64) % 64) } else { '=' };
        let c3 = if rem > 2 { alphabet_char(triple % 64) } else { '=' };
        out.push(c0);
        out.push(c1);
        out.push(c2);
        out.push(c3);
        assert(seq![c0, c1, c2, c3] =~= chunk_text(c));
        assert(out@ =~= before + chunk_text(c));
        let ghost i0 = i as int;
        if rem > 3 {
            assert(encode_from(data@, i0) == chunk_text(c) + encode_from(data@, i0 + 3));
            i = i + 3;
        } else {
            assert(encode_from(data@, i0) =~= chunk_text(c));
            i = data.len();
            assert(encode_from(data@, i as int) =~= Seq::<char>::empty());
        }
        assert(out@ + encode_from(data@, i as int) =~= before + encode_from(data@, i0));
    }
    string_of(&out)
}

/// The byte of the alphabet character of a 6-bit value.
pub open spec fn alphabet_byte(v: int) -> u8 {
    if v < 26 {
        (65 + v) as u8
    } else if v < 52 {
        (71 + v) as u8
    } else if v < 62 {
        (v - 4) as u8
    } else if v == 62 {
        43u8
    } else {
        47u8
    }
}

/// The 6-bit digits of a chunk, as many as it has characters before padding.
pub open spec fn chunk_digits(c: Seq<u8>) -> Seq<int> {
    let b1: int = if c.len() > 1 { c[1] as int } else { 0 };
    let b2: int = if c.len() > 2 { c[2] as int } else { 0 };
    let t: int = c[0] * 65536 + b1 * 256 + b2;
    seq![(t / 262144) % 64, (t / 4096) % 64, (t / 64) % 64, t % 64].take(c.len() as int + 1)
}

proof fn lemma_alphabet_encode(vs: Seq<int>)
    requires
        forall|i: int| 0 <= i < vs.len() ==> 0 <= #[trigger] vs[i] < 64,
    ensures
        encode_utf8(vs.map_values(|v: int| alphabet(v))) == vs.map_values(|v: int| alphabet_byte(v)),
    decreases vs.len(),
{
    let cs = vs.map_values(|v: int| alphabet(v));
    if vs.len() > 0 {
        lemma_alphabet_encode(vs.drop_first());
        assert(cs.drop_first() =~= vs.drop_first().map_values(|v: int| alphabet(v)));
        let x = cs[0] as u32;
        assert(x < 128);
        assert(x & 0x7F == x) by (bit_vector)
            requires
                x < 128,
        ;
        assert(vs.map_values(|v: int| alphabet_byte(v)) =~= seq![alphabet_byte(vs[0])]
            + vs.drop_first().map_values(|v: int| alphabet_byte(v)));
    }
}

proof fn lemma_alphabet_sextets(vs: Seq<int>)
    requires
        forall|i: int| 0 <= i < vs.len() ==> 0 <= #[trigger] vs[i] < 64,
    ensures
        sextets(vs.map_values(|v: int| alphabet_byte(v))) == vs.map_values(|v: int| v as u8),
    decreases vs.len(),
{
    let bs = vs.map_values(|v: int| alphabet_byte(v));
    if vs.len() > 0 {
        lemma_alphabet_sextets(vs.drop_last());
        assert(bs.drop_last() =~= vs.drop_last().map_values(|v: int| alphabet_byte(v)));
        assert(vs.map_values(|v: int| v as u8) =~= vs.drop_last().map_values(|v: int| v as u8).push(vs.last() as u8));
    }
}

/// The 6-bit digits of a 24-bit number put it back together.
proof fn lemma_digits(t: int)
    by (nonlinear_arith)
    requires
        0 <= t < 16777216,
    ensures
        0 <= (t / 262144) % 64 < 64,
        0 <= (t / 4096) % 64 < 64,
        0 <= (t / 64) % 64 < 64,
        0 <= t % 64 < 64,
        t / 262144 < 64,
        ((t / 262144) % 64) * 262144 + ((t / 4096) % 64) * 4096 + ((t / 64) % 64) * 64 + t % 64 == t,
{
}

/// The bytes of a full chunk come back from its 24-bit number.
proof fn lemma_three_bytes(b0: int, b1: int, b2: int)
    by (nonlinear_arith)
    requires
        0 <= b0 < 256,
        0 <= b1 < 256,
        0 <= b2 < 256,
    ensures
        (b0 * 65536 + b1 * 256 + b2) / 65536 == b0,
        ((b0 * 65536 + b1 * 256 + b2) / 256) % 256 == b1,
        (b0 * 65536 + b1 * 256 + b2) % 256 == b2,
{
}

/// The bytes of a two-byte chunk come back from its top 18 bits.
proof fn lemma_two_bytes(b0: int, b1: int)
    by (nonlinear_arith)
    requires
        0 <= b0 < 256,
        0 <= b1 < 256,
    ensures
        (b0 * 65536 + b1 * 256) % 64 == 0,
        (b0 * 65536 + b1 * 256) / 64 == b0 * 1024 + b1 * 4,
        ((b0 * 1024 + b1 * 4) / 1024) % 256 == b0,
        ((b0 * 1024 + b1 * 4) / 4) % 256 == b1,
{
}

/// The byte of a one-byte chunk comes back from its top 12 bits.
proof fn lemma_one_byte(b0: int)
    by (nonlinear_arith)
    requires
        0 <= b0 < 256,
    ensures
        (b0 * 65536) % 4096 == 0,
        (b0 * 65536) / 4096 == b0 * 16,
        ((b0 * 16) / 16) % 256 == b0,
{
}

/// A chunk's text is its digits in the alphabet, then padding; its bytes come
/// back from the digits.
#[verifier::rlimit(30)]
proof fn lemma_chunk(c: Seq<u8>)
    requires
        1 <= c.len() <= 3,
    ensures
        forall|i: int| 0 <= i < chunk_digits(c).len() ==> 0 <= #[trigger] chunk_digits(c)[i] < 64,
        without_padding(chunk_text(c)) == chunk_digits(c).map_values(|v: int| alphabet(v)),
        group_bytes(chunk_digits(c).map_values(|v: int| v as u8)) == c,
{
    let b0: int = c[0] as int;
    let b1: int = if c.len() > 1 { c[1] as int } else { 0 };
    let b2: int = if c.len() > 2 { c[2] as int } else { 0 };
    let t: int = b0 * 65536 + b1 * 256 + b2;
    let d0 = (t / 262144) % 64;
    let d1 = (t / 4096) % 64;
    let d2 = (t / 64) % 64;
    let d3 = t % 64;
    lemma_digits(t);
    let ds = chunk_digits(c);
    assert(ds =~= seq![d0, d1, d2, d3].take(c.len() as int + 1));
    let g = chunk_text(c);
    assert(g =~= seq![alphabet(d0), alphabet(d1), if c.len() > 1 { alphabet(d2) } else { '=' },
        if c.len() > 2 { alphabet(d3) } else { '=' }]);
    let vs = ds.map_values(|v: int| alphabet(v));
    let us = ds.map_values(|v: int| v as u8);
    if c.len() == 3 {
        lemma_three_bytes(b0, b1, b2);
        assert(vs =~= g);
        assert(alphabet(d3) != '=');
        assert(without_padding(g) == g);
        assert(us =~= seq![d0 as u8, d1 as u8, d2 as u8, d3 as u8]);
        assert(group_bytes(us) =~= seq![b0 as u8, b1 as u8, b2 as u8]);
        assert(c =~= seq![b0 as u8, b1 as u8, b2 as u8]);
    } else if c.len() == 2 {
        lemma_two_bytes(b0, b1);
        assert(g.drop_last() =~= vs);
        assert(alphabet(d2) != '=');
        assert(without_padding(g.drop_last()) == g.drop_last());
        assert(without_padding(g) == without_padding(g.drop_last()));
        assert(us =~= seq![d0 as u8, d1 as u8, d2 as u8]);
        assert(d0 * 4096 + d1 * 64 + d2 == t / 64);
        assert(group_bytes(us) =~= seq![b0 as u8, b1 as u8]);
        assert(c =~= seq![b0 as u8, b1 as u8]);
    } else {
        lemma_one_byte(b0);
        assert(g.drop_last().drop_last() =~= vs);
        assert(alphabet(d1) != '=');
        assert(without_padding(vs) == vs);
        assert(without_padding(g.drop_last()) == without_padding(vs));
        assert(without_padding(g) == without_padding(g.drop_last()));
        assert(us =~= seq![d0 as u8, d1 as u8]);
        assert(d0 * 64 + d1 == t / 4096);
        assert(group_bytes(us) =~= seq![b0 as u8]);
        assert(c =~= seq![b0 as u8]);
    }
}
/// Decoding past a prefix is decoding what follows it.
proof fn lemma_decode_shift(p: Seq<u8>, r: Seq<u8>, j: int)
    requires
        0 <= j,
    ensures
        decode_from(p + r, p.len() + j) == decode_from(r, j),
    decreases r.len() - j,
{
    let t = p + r;
    let k = p.len() + j;
    if j < r.len() {
        let hi_r = if j + 4 < r.len() { j + 4 } else { r.len() as int };
        let hi_t = if k + 4 < t.len() { k + 4 } else { t.len() as int };
        assert(t.subrange(k, hi_t) =~= r.subrange(j, hi_r));
        if j + 4 < r.len() {
            lemma_decode_shift(p, r, j + 4);
        }
    }
}

/// Trailing padding of a text that has more than padding is its own.
proof fn lemma_padding_suffix(a: Seq<char>, b: Seq<char>)
    requires
        without_padding(b).len() > 0,
    ensures
        without_padding(a + b) == a + without_padding(b),
    decreases b.len(),
{
    if b.len() > 0 && b.last() == '=' {
        assert((a + b).drop_last() =~= a + b.drop_last());
        lemma_padding_suffix(a, b.drop_last());
    } else {
        if b.len() == 0 {
            assert(without_padding(b).len() == 0);
        }
        assert((a + b).last() == b.last());
    }
}

/// A text that starts with a character other than `=` keeps it.
proof fn lemma_padding_keeps_first(b: Seq<char>)
    requires
        b.len() > 0,
        b[0] != '=',
    ensures
        without_padding(b).len() > 0,
    decreases b.len(),
{
    if b.last() == '=' {
        assert(b.len() > 1);
        assert(b.drop_last()[0] == b[0]);
        lemma_padding_keeps_first(b.drop_last());
    }
}

/// Decoding the text of the bytes from `i` on gives those bytes.
proof fn lemma_decode_encode_from(d: Seq<u8>, i: int)
    requires
        0 <= i < d.len(),
    ensures
        decode_from(encode_utf8(without_padding(encode_from(d, i))), 0) == d.subrange(i, d.len() as int),
    decreases d.len() - i,
{
    let hi = if i + 3 < d.len() { i + 3 } else { d.len() as int };
    let c = d.subrange(i, hi);
    lemma_chunk(c);
    let ds = chunk_digits(c);
    lemma_alphabet_encode(ds);
    lemma_alphabet_sextets(ds);
    let g = chunk_text(c);
    let gw = ds.map_values(|v: int| alphabet(v));
    let gb = ds.map_values(|v: int| alphabet_byte(v));
    if i + 3 < d.len() {
        let rest = encode_from(d, i + 3);
        assert(encode_from(d, i) == g + rest);
        assert(without_padding(g) == g) by {
            assert(g.len() == 4);
            assert(g[3] == gw[3]);
        }
        let hi2 = if i + 6 < d.len() { i + 6 } else { d.len() as int };
        lemma_chunk(d.subrange(i + 3, hi2));
        assert(rest[0] == chunk_text(d.subrange(i + 3, hi2))[0]);
        lemma_padding_keeps_first(rest);
        lemma_padding_suffix(g, rest);
        let wr = without_padding(rest);
        lemma_encode_concat(g, wr);
        let rb = encode_utf8(wr);
        assert(rb.len() > 0) by {
            assert(rb == encode_scalar(wr[0] as u32) + encode_utf8(wr.drop_first()));
        }
        assert(gw == g);
        let t = gb + rb;
        assert(t.subrange(0, 4) =~= gb);
        lemma_decode_shift(gb, rb, 0);
        lemma_decode_encode_from(d, i + 3);
        assert(decode_from(t, 0) == group_bytes(sextets(gb)) + decode_from(t, 4));
        assert(d.subrange(i, d.len() as int) =~= c + d.subrange(i + 3, d.len() as int));
    } else {
        assert(encode_from(d, i) =~= g);
        assert(gb.subrange(0, gb.len() as int) =~= gb);
        assert(decode_from(gb, 0) == group_bytes(sextets(gb)));
    }
}

/// Decoding the Base64 text of any bytes gives those bytes back: what
/// [`base64_encode`] writes, [`base64_decode`] reads back unchanged.
pub proof fn law_base64_roundtrip(data: Seq<u8>)
    ensures
        base64_bytes(base64_text(data)) == data,
{
    if data.len() == 0 {
        assert(base64_text(data) =~= Seq::<char>::empty());
        assert(without_padding(Seq::<char>::empty()) =~= Seq::<char>::empty());
        assert(encode_utf8(Seq::<char>::empty()) =~= Seq::<u8>::empty());
        assert(data =~= Seq::<u8>::empty());
    } else {
        lemma_decode_encode_from(data, 0);
        assert(data.subrange(0, data.len() as int) =~= data);
    }
}

// ───────────────────────────── vault scanning ─────────────────────────────

/// `p` occurs in `s` starting at some position.
pub open spec fn holds_text(s: Seq<char>, p: Seq<char>) -> bool {
    exists|i: int| 0 <= i && i + p.len() <= s.len() && #[trigger] s.subrange(i, i + p.len()) == p
}

/// Whether `p` occurs in `s` (see [`holds_text`]).
fn contains_text(s: &str, p: &str) -> (b: bool)
    ensures
        b == holds_text(s@, p@),
{
    let x = chars_of(s);
    let y = chars_of(p);
    let xl = x.len();
    let yl = y.len();
    if yl > xl {
        assert forall|i: int| 0 <= i && i + p@.len() <= s@.len() implies #[trigger] s@.subrange(i, i + p@.len()) != p@ by {}
        return false;
    }
    let last = xl - yl;
    let mut i: usize = 0;
    loop
        invariant
            x@ == s@,
            y@ == p@,
            xl == x@.len(),
            yl == y@.len(),
            last + yl == xl,
            i <= last,
            forall|j: int| 0 <= j < i ==> #[trigger] s@.subrange(j, j + p@.len()) != p@,
        decreases last - i,
    {
        let mut k: usize = 0;
        let mut same = true;
        assert(s@.subrange(i as int, i as int) =~= p@.take(0));
        while k < yl
            invariant
                x@ == s@,
                y@ == p@,
                xl == x@.len(),
                yl == y@.len(),
                i + yl <= xl,
                k <= yl,
                same == (s@.subrange(i as int, i + k) == p@.take(k as int)),
            decreases yl - k,
        {
            let j: usize = i + k;
            if x[j] != y[k] {
                same = false;
                assert(s@.subrange(i as int, i + k + 1) != p@.take(k + 1)) by {
                    assert(s@.subrange(i as int, i + k + 1)[k as int] != p@.take(k + 1)[k as int]);
                }
            } else if same {
                assert(s@.subrange(i as int, i + k + 1) =~= p@.take(k + 1));
            } else {
                assert(s@.subrange(i as int, i + k + 1) != p@.take(k + 1)) by {
                    if s@.subrange(i as int, i + k + 1) == p@.take(k + 1) {
                        assert(s@.subrange(i as int, i + k) =~= s@.subrange(i as int, i + k + 1).take(k as int));
                        assert(p@.take(k as int) =~= p@.take(k + 1).take(k as int));
                    }
                }
            }
            k = k + 1;
        }
        assert(p@.take(yl as int) =~= p@);
        if same {
            return true;
        }
        if i == last {
            assert forall|j: int| 0 <= j && j + p@.len() <= s@.len() implies #[trigger] s@.subrange(j, j + p@.len()) != p@ by {
                assert(j <= i);
            }
            return false;
        }
        i = i + 1;
    }
}

/// Hidden entries start with `.`.
pub open spec fn hidden_name(name: Seq<char>) -> bool {
    name.len() > 0 && name[0] == '.'
}

/// Whether a file name is hidden (see [`hidden_name`]).
pub fn is_hidden(name: &str) -> (b: bool)
    ensures
        b == hidden_name(name@),
{
    let cs = chars_of(name);
    cs.len() > 0 && cs[0] == '.'
}

/// Work folders of the scanner: `tmp`, `temp`, `bunlk`, `.bunlk`, `.bulk`.
pub open spec fn temp_name(name: Seq<char>) -> bool {
    name == "tmp"@ || name == "temp"@ || name == "bunlk"@ || name == ".bunlk"@ || name == ".bulk"@
}

/// Whether a folder name is a scanner work folder (see [`temp_name`]).
pub fn is_temp_dir(name: &str) -> (b: bool)
    ensures
        b == temp_name(name@),
{
    crate::text::str_eq(name, "tmp") || crate::text::str_eq(name, "temp") || crate::text::str_eq(name, "bunlk")
        || crate::text::str_eq(name, ".bunlk") || crate::text::str_eq(name, ".bulk")
}

/// Copies kept after a synchronisation conflict: their names hold
/// `云端冲突副本` or `.conflict.`.
pub open spec fn conflict_name(name: Seq<char>) -> bool {
    holds_text(name, "云端冲突副本"@) || holds_text(name, ".conflict."@)
}

/// Whether a file is a conflict copy (see [`conflict_name`]).
pub fn is_conflict_copy(name: &str) -> (b: bool)
    ensures
        b == conflict_name(name@),
{
    contains_text(name, "云端冲突副本") || contains_text(name, ".conflict.")
}

/// Whether the scan enters an entry: the root always, other entries unless
/// hidden or a work folder.
pub fn scan_enters(depth: usize, name: &str) -> (b: bool)
    ensures
        b == (depth == 0 || (!hidden_name(name@) && !temp_name(name@))),
{
    depth == 0 || (!is_hidden(name) && !is_temp_dir(name))
}

// ───────────────────────────── knowledge-base export ─────────────────────────────

/// Errors of a knowledge-base export.
#[derive(Debug)]
pub enum ExportError {
    FileCreateError(String),
    ZipError(String),
    IoError(std::io::Error),
    FetchError(String),
    TaskPanic,
}

/// The message of an [`ExportError`] other than `IoError`.
pub open spec fn export_error_text(e: ExportError) -> Seq<char> {
    match e {
        ExportError::FileCreateError(m) => "文件创建失败: "@ + m@,
        ExportError::ZipError(m) => "Zip 写入失败: "@ + m@,
        ExportError::IoError(_) => "IO 错误: "@,
        ExportError::FetchError(m) => "数据拉取失败: "@ + m@,
        ExportError::TaskPanic => "线程执行崩溃"@,
    }
}

impl ExportError {
    /// The human-readable message (see [`export_error_text`]); for
    /// `IoError`, that prefix followed by the I/O error's own text.
    pub fn message(&self) -> (r: String)
        ensures
            !(self is IoError) ==> r@ == export_error_text(*self),
            self is IoError ==> r@.len() >= export_error_text(*self).len()
                && r@.subrange(0, export_error_text(*self).len() as int) == export_error_text(*self),
    {
        let mut r = String::new();
        match self {
            ExportError::FileCreateError(m) => {
                push_str(&mut r, "文件创建失败: ");
                push_str(&mut r, m.as_str());
            },
            ExportError::ZipError(m) => {
                push_str(&mut r, "Zip 写入失败: ");
                push_str(&mut r, m.as_str());
            },
            ExportError::IoError(e) => {
                push_str(&mut r, "IO 错误: ");
                let ghost head = r@;
                push_str(&mut r, io_text(e).as_str());
                assert(r@.subrange(0, head.len() as int) =~= head);
            },
            ExportError::FetchError(m) => {
                push_str(&mut r, "数据拉取失败: ");
                push_str(&mut r, m.as_str());
            },
            ExportError::TaskPanic => push_str(&mut r, "线程执行崩溃"),
        }
        r
    }
}

/// How an export lays out its archive.
#[derive(Debug, Clone, Copy)]
pub struct ExportOptions {
    /// Compress entries (deflate) rather than store them.
    pub deflate: bool,
    /// Put every image in one `images` folder rather than beside its card.
    pub flatten_images: bool,
}

impl ExportOptions {
    /// Deflated entries, images gathered in one folder.
    pub fn new() -> (r: ExportOptions)
        ensures
            r.deflate && r.flatten_images,
    {
        ExportOptions { deflate: true, flatten_images: true }
    }
}

/// Where the bytes of an archive entry come from.
#[derive(Debug, Clone, Copy, PartialEq, Eq, Structural)]
pub enum EntrySource {
    /// The Markdown text of a card.
    Card(usize),
    /// An image of a card.
    Image(usize, usize),
}

/// The entries of a card in the archive: `category/title.md`, then each of
/// its images in the `images` folder (or the category's folder), names made
/// safe (see [`safe_file_name`]).
pub open spec fn card_entries(c: KbCard, i: int, flatten: bool) -> Seq<(Seq<char>, EntrySource)> {
    let category = safe_file_name(c.category_name@);
    let dir = if flatten { "images"@ } else { category };
    seq![(category + "/"@ + safe_file_name(c.title@) + ".md"@, EntrySource::Card(i as usize))]
        + Seq::new(c.images@.len(), |j: int| (dir + "/"@ + safe_file_name(c.images@[j].filename@), EntrySource::Image(i as usize, j as usize)))
}

/// The entries of the archive for the first `n` cards, in order.
pub open spec fn export_plan(cards: Seq<KbCard>, n: int, flatten: bool) -> Seq<(Seq<char>, EntrySource)>
    decreases n,
{
    if n <= 0 {
        Seq::empty()
    } else {
        export_plan(cards, n - 1, flatten) + card_entries(cards[n - 1], n - 1, flatten)
    }
}

/// The texts of planned entries.
pub open spec fn plan_view(v: Seq<(String, EntrySource)>) -> Seq<(Seq<char>, EntrySource)> {
    v.map_values(|e: (String, EntrySource)| (e.0@, e.1))
}

/// Joins `a`, `/` and `b`.
fn slash_join(a: &str, b: &str) -> (r: String)
    ensures
        r@ == a@ + "/"@ + b@,
{
    let mut s = a.to_string();
    push_str(&mut s, "/");
    push_str(&mut s, b);
    s
}

/// The entries of an export archive, in order, with where each one's bytes
/// come from (see [`export_plan`]).
pub fn export_entries(cards: &Vec<KbCard>, options: ExportOptions) -> (r: Vec<(String, EntrySource)>)
    ensures
        plan_view(r@) == export_plan(cards@, cards@.len() as int, options.flatten_images),
{
    let mut out: Vec<(String, EntrySource)> = Vec::new();
    let mut i: usize = 0;
    assert(plan_view(out@) =~= export_plan(cards@, 0, options.flatten_images));
    while i < cards.len()
        invariant
            i <= cards@.len(),
            plan_view(out@) == export_plan(cards@, i as int, options.flatten_images),
        decreases cards@.len() - i,
    {
        let card = &cards[i];
        let category = sanitize_filename(card.category_name.as_str());
        let title = sanitize_filename(card.title.as_str());
        let mut md = slash_join(category.as_str(), title.as_str());
        push_str(&mut md, ".md");
        let ghost start = plan_view(out@);
        out.push((md, EntrySource::Card(i)));
        proof {
            reveal_strlit("images");
        }
        let dir = if options.flatten_images { "images".to_string() } else { category.clone() };
        let ghost entries = card_entries(cards@[i as int], i as int, options.flatten_images);
        assert(plan_view(out@) =~= start + entries.take(1));
        let mut j: usize = 0;
        while j < card.images.len()
            invariant
                i < cards@.len(),
                card == &cards@[i as int],
                j <= card.images@.len(),
                entries == card_entries(cards@[i as int], i as int, options.flatten_images),
                dir@ == (if options.flatten_images { "images"@ } else { safe_file_name(card.category_name@) }),
                plan_view(out@) == start + entries.take(j + 1),
            decreases card.images@.len() - j,
        {
            let name = sanitize_filename(card.images[j].filename.as_str());
            let path = slash_join(dir.as_str(), name.as_str());
            let ghost before = plan_view(out@);
            out.push((path, EntrySource::Image(i, j)));
            assert(entries.take(j + 2) =~= entries.take(j + 1).push(entries[j + 1]));
            assert(plan_view(out@) =~= before.push(entries[j + 1]));
            j = j + 1;
        }
        assert(entries.take(card.images@.len() as int + 1) =~= entries);
        i = i + 1;
    }
    out
}

/// The number of images of the first `n` cards.
pub open spec fn image_total(cards: Seq<KbCard>, n: int) -> int
    decreases n,
{
    if n <= 0 { 0 } else { image_total(cards, n - 1) + cards[n - 1].images@.len() }
}

/// The number of images of the cards, when it fits in a `usize`.
pub fn total_images(cards: &Vec<KbCard>) -> (r: Option<usize>)
    ensures
        image_total(cards@, cards@.len() as int) <= usize::MAX ==> r == Some(image_total(cards@, cards@.len() as int) as usize),
        image_total(cards@, cards@.len() as int) > usize::MAX ==> r is None,
{
    let mut total: usize = 0;
    let mut i: usize = 0;
    while i < cards.len()
        invariant
            i <= cards@.len(),
            total == image_total(cards@, i as int),
        decreases cards@.len() - i,
    {
        let n = cards[i].images.len();
        if total > usize::MAX - n {
            proof {
                lemma_image_total_grows(cards@, i as int + 1, cards@.len() as int);
            }
            return None;
        }
        total = total + n;
        i = i + 1;
    }
    Some(total)
}

proof fn lemma_image_total_grows(cards: Seq<KbCard>, a: int, b: int)
    requires
        0 <= a <= b <= cards.len(),
    ensures
        image_total(cards, a) <= image_total(cards, b),
    decreases b - a,
{
    if a < b {
        lemma_image_total_grows(cards, a, b - 1);
    }
}

/// A character allowed in a file name: none of `/ \ : * ? " < > |` and no
/// control character.
pub open spec fn allowed_in_name(c: char) -> bool {
    &&& c != '/' && c != '\\' && c != ':' && c != '*' && c != '?'
    &&& c != '"' && c != '<' && c != '>' && c != '|'
    &&& !(c <= '\u{1f}') && !('\u{7f}' <= c && c <= '\u{9f}')
}

/// All characters of `s` are allowed in a file name.
pub open spec fn all_allowed(s: Seq<char>) -> bool {
    forall|i: int| 0 <= i < s.len() ==> allowed_in_name(#[trigger] s[i])
}

proof fn lemma_trim_start_allowed(s: Seq<char>)
    requires
        all_allowed(s),
    ensures
        all_allowed(trimmed_start(s)),
    decreases s.len(),
{
    if s.len() > 0 && is_space(s[0]) {
        assert forall|i: int| 0 <= i < s.drop_first().len() implies allowed_in_name(#[trigger] s.drop_first()[i]) by {
            assert(s.drop_first()[i] == s[i + 1]);
        }
        lemma_trim_start_allowed(s.drop_first());
    }
}

proof fn lemma_trim_end_allowed(s: Seq<char>)
    requires
        all_allowed(s),
    ensures
        all_allowed(trimmed_end(s)),
    decreases s.len(),
{
    if s.len() > 0 && is_space(s.last()) {
        assert forall|i: int| 0 <= i < s.drop_last().len() implies allowed_in_name(#[trigger] s.drop_last()[i]) by {
            assert(s.drop_last()[i] == s[i]);
        }
        lemma_trim_end_allowed(s.drop_last());
    }
}

proof fn lemma_dots_allowed(s: Seq<char>)
    requires
        all_allowed(s),
    ensures
        all_allowed(without_leading_dots(s)),
    decreases s.len(),
{
    if s.len() > 0 && s[0] == '.' {
        assert forall|i: int| 0 <= i < s.drop_first().len() implies allowed_in_name(#[trigger] s.drop_first()[i]) by {
            assert(s.drop_first()[i] == s[i + 1]);
        }
        lemma_dots_allowed(s.drop_first());
    }
}

/// A sanitised file name holds none of `/ \ : * ? " < > |` and no control
/// character, whatever the name it was made from.
pub proof fn law_safe_name_has_no_forbidden_char(name: Seq<char>)
    ensures
        forall|i: int| 0 <= i < safe_file_name(name).len() ==> {
            let c = #[trigger] safe_file_name(name)[i];
            &&& c != '/' && c != '\\' && c != ':' && c != '*' && c != '?'
            &&& c != '"' && c != '<' && c != '>' && c != '|'
            &&& !(c <= '\u{1f}') && !('\u{7f}' <= c && c <= '\u{9f}')
        },
{
    let mapped = name.map_values(|c: char| name_char(c));
    assert forall|i: int| 0 <= i < mapped.len() implies allowed_in_name(#[trigger] mapped[i]) by {
        assert(mapped[i] == name_char(name[i]));
    }
    lemma_trim_start_allowed(mapped);
    lemma_trim_end_allowed(trimmed_start(mapped));
    lemma_dots_allowed(trimmed(mapped));
    assert forall|i: int| 0 <= i < safe_file_name(name).len() implies allowed_in_name(#[trigger] safe_file_name(name)[i]) by {}
}

} // verus!
