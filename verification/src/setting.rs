//! Setting the encoder in the host's file.
//!
//! The file is changed as text, line by line, so that comments and formatting stay.
use vstd::prelude::*;

use crate::{config, text};

verus! {

/// The codecs that can be set: each of the encoders, and the name that leaves the choice open.
pub open spec fn known_codecs() -> Seq<Seq<char>> {
    seq!["auto"@, "h264_vaapi"@, "h264_nvenc"@, "h264_qsv"@, "h264_amf"@, "libx264"@]
}

fn is_known(codec: &str) -> (res: bool)
    ensures
        res == known_codecs().contains(codec@),
{
    let res = text::same(codec, "auto") || text::same(codec, "h264_vaapi") || text::same(
        codec,
        "h264_nvenc",
    ) || text::same(codec, "h264_qsv") || text::same(codec, "h264_amf") || text::same(
        codec,
        "libx264",
    );
    proof {
        let known = known_codecs();
        assert(known[0] == "auto"@ && known[1] == "h264_vaapi"@ && known[2] == "h264_nvenc"@);
        assert(known[3] == "h264_qsv"@ && known[4] == "h264_amf"@ && known[5] == "libx264"@);
    }
    res
}

/// A codec that is none of the known ones.
#[derive(Debug, Clone, PartialEq, Eq)]
pub struct UnknownCodec {
    pub codec: String,
}

impl UnknownCodec {
    /// What is said of the error.
    pub fn to_string(&self) -> (res: String)
        ensures
            res@ == "unknown encoder "@ + self.codec@
                + " -- valid values are auto, h264_vaapi, h264_nvenc, h264_qsv, h264_amf and libx264"@,
    {
        let mut out = "unknown encoder ".to_owned();
        out.append(self.codec.as_str());
        out.append(
            " -- valid values are auto, h264_vaapi, h264_nvenc, h264_qsv, h264_amf and libx264",
        );
        out
    }
}

// ---- lines ----

/// The lines of a text, without the breaks between them. There is always one, which may be empty.
pub open spec fn lines(s: Seq<char>) -> Seq<Seq<char>>
    decreases s.len(),
{
    if s.len() == 0 {
        seq![Seq::empty()]
    } else {
        let before = lines(s.drop_last());
        if s.last() == '\n' {
            before.push(Seq::empty())
        } else {
            before.drop_last().push(before.last().push(s.last()))
        }
    }
}

fn lines_of(s: &str) -> (res: Vec<String>)
    ensures
        text::views(res@) == lines(s@),
{
    let v = text::chars_of(s);
    let mut out: Vec<String> = Vec::new();
    let mut line = String::new();
    let mut i: usize = 0;
    assert(text::views(out@).push(line@) =~= lines(v@.take(0)));
    while i < v.len()
        invariant
            i <= v.len(),
            text::views(out@).push(line@) == lines(v@.take(i as int)),
        decreases v.len() - i,
    {
        let c = v[i];
        let ghost before = lines(v@.take(i as int));
        proof {
            assert(v@.take(i + 1).drop_last() =~= v@.take(i as int));
            assert(before.drop_last() =~= text::views(out@));
            assert(before.last() == line@);
        }
        if c == '\n' {
            text::push_text(&mut out, line.as_str());
            line = String::new();
            assert(line@ =~= Seq::<char>::empty());
        } else {
            line.push(c);
        }
        assert(text::views(out@).push(line@) =~= lines(v@.take(i + 1)));
        i = i + 1;
    }
    assert(v@.take(i as int) =~= s@);
    text::push_text(&mut out, line.as_str());
    out
}

/// A text up to the first `c` behind `i`, or all of it.
pub open spec fn cut_at(s: Seq<char>, c: char, i: int) -> Seq<char>
    decreases s.len() - i,
{
    if i >= s.len() || s[i] == c {
        s.take(i)
    } else {
        cut_at(s, c, i + 1)
    }
}

fn cut(v: &[char], c: char) -> (n: usize)
    ensures
        n <= v@.len(),
        v@.take(n as int) == cut_at(v@, c, 0),
{
    let mut i: usize = 0;
    while i < v.len() && v[i] != c
        invariant
            i <= v.len(),
            cut_at(v@, c, 0) == cut_at(v@, c, i as int),
        decreases v.len() - i,
    {
        i = i + 1;
    }
    i
}

/// The section that a line opens, if it opens one: a name in brackets, and perhaps a comment.
pub open spec fn section_of(line: Seq<char>) -> Option<Seq<char>> {
    let t = text::trimmed(cut_at(line, '#', 0));
    if t.len() >= 2 && t[0] == '[' && t.last() == ']' {
        Some(text::trimmed(t.subrange(1, t.len() - 1)))
    } else {
        None
    }
}

fn section(line: &str) -> (res: Option<String>)
    ensures
        section_of(line@) == (match res {
            Some(s) => Some(s@),
            None => None,
        }),
{
    let v = text::chars_of(line);
    let n = cut(v.as_slice(), '#');
    assert(v@.subrange(0, n as int) =~= v@.take(n as int));
    let (from, to) = text::trim_bounds(v.as_slice(), 0, n);
    let ghost t = v@.subrange(from as int, to as int);
    if to - from >= 2 && v[from] == '[' && v[to - 1] == ']' {
        assert(t[0] == '[' && t.last() == ']');
        let (a, b) = text::trim_bounds(v.as_slice(), from + 1, to - 1);
        assert(v@.subrange(from + 1, to - 1) =~= t.subrange(1, t.len() - 1));
        Some(text::string_of(vstd::slice::slice_subrange(v.as_slice(), a, b)))
    } else {
        assert(t.len() >= 2 ==> t[0] == v@[from as int] && t.last() == v@[to - 1]);
        None
    }
}

/// Whether a line sets the codec.
pub open spec fn sets_codec(line: Seq<char>) -> bool {
    let key = cut_at(line, '=', 0);
    key.len() < line.len() && text::trimmed(key) == "codec"@
}

fn is_codec_line(line: &str) -> (res: bool)
    ensures
        res == sets_codec(line@),
{
    let v = text::chars_of(line);
    let n = cut(v.as_slice(), '=');
    if n == v.len() {
        return false;
    }
    assert(v@.subrange(0, n as int) =~= v@.take(n as int));
    let (from, to) = text::trim_bounds(v.as_slice(), 0, n);
    let key = text::string_of(vstd::slice::slice_subrange(v.as_slice(), from, to));
    text::same(key.as_str(), "codec")
}

/// The first line from `i` on that opens the section of the encoder; nothing where there is none.
pub open spec fn encode_section(ls: Seq<Seq<char>>, i: int) -> Option<int>
    decreases ls.len() - i,
{
    if i >= ls.len() {
        None
    } else if section_of(ls[i]) == Some("encode"@) {
        Some(i)
    } else {
        encode_section(ls, i + 1)
    }
}

/// The first line from `i` on that sets the codec, up to the next section; nothing where there is
/// none.
pub open spec fn codec_in_section(ls: Seq<Seq<char>>, i: int) -> Option<int>
    decreases ls.len() - i,
{
    if i >= ls.len() || section_of(ls[i]) is Some {
        None
    } else if sets_codec(ls[i]) {
        Some(i)
    } else {
        codec_in_section(ls, i + 1)
    }
}

fn find_section(v: &Vec<String>) -> (res: Option<usize>)
    ensures
        match res {
            Some(k) => k < v@.len() && encode_section(text::views(v@), 0) == Some(k as int),
            None => encode_section(text::views(v@), 0) is None,
        },
{
    let ghost ls = text::views(v@);
    let mut i: usize = 0;
    while i < v.len()
        invariant
            i <= v.len(),
            ls == text::views(v@),
            encode_section(ls, 0) == encode_section(ls, i as int),
        decreases v.len() - i,
    {
        assert(ls[i as int] == v@[i as int]@);
        if let Some(name) = section(v[i].as_str()) {
            if text::same(name.as_str(), "encode") {
                return Some(i);
            }
        }
        i = i + 1;
    }
    None
}

fn find_codec(v: &Vec<String>, start: usize) -> (res: Option<usize>)
    requires
        start <= v@.len(),
    ensures
        match res {
            Some(k) => k < v@.len() && codec_in_section(text::views(v@), start as int) == Some(
                k as int,
            ),
            None => codec_in_section(text::views(v@), start as int) is None,
        },
{
    let ghost ls = text::views(v@);
    let mut i: usize = start;
    while i < v.len()
        invariant
            i <= v.len(),
            ls == text::views(v@),
            codec_in_section(ls, start as int) == codec_in_section(ls, i as int),
        decreases v.len() - i,
    {
        assert(ls[i as int] == v@[i as int]@);
        if section(v[i].as_str()).is_some() {
            return None;
        }
        if is_codec_line(v[i].as_str()) {
            return Some(i);
        }
        i = i + 1;
    }
    None
}

// ---- setting the codec ----

/// The line that sets a codec.
pub open spec fn codec_line(codec: Seq<char>) -> Seq<char> {
    "codec = \""@ + codec + "\""@
}

/// What is added to a file without the section of the encoder.
pub open spec fn new_section(codec: Seq<char>) -> Seq<char> {
    "\n[encode]\n"@ + codec_line(codec) + "\n"@
}

/// A file in which the codec is set: in the line that sets it, or in a new line at the beginning of
/// the section, or in a new section at the end.
pub open spec fn codec_set(file: Seq<char>, codec: Seq<char>) -> Seq<char> {
    let ls = lines(file);
    match encode_section(ls, 0) {
        None => config::extended(file, new_section(codec)),
        Some(h) => match codec_in_section(ls, h + 1) {
            Some(k) => text::joined(ls.update(k, codec_line(codec)), "\n"@),
            None => text::joined(ls.insert(h + 1, codec_line(codec)), "\n"@),
        },
    }
}

/// The line that sets the codec in a file, if one does.
pub open spec fn codec_setting(file: Seq<char>) -> Option<Seq<char>> {
    let ls = lines(file);
    match encode_section(ls, 0) {
        None => None,
        Some(h) => match codec_in_section(ls, h + 1) {
            Some(k) => Some(ls[k]),
            None => None,
        },
    }
}

/// The host's file, with this codec set in it. Only a codec that there is can be set.
pub fn with_codec(file: &str, codec: &str) -> (res: Result<String, UnknownCodec>)
    ensures
        match res {
            Ok(f) => known_codecs().contains(codec@) && f@ == codec_set(file@, codec@),
            Err(e) => !known_codecs().contains(codec@) && e.codec@ == codec@,
        },
{
    if !is_known(codec) {
        return Err(UnknownCodec { codec: codec.to_owned() });
    }
    let mut line = "codec = \"".to_owned();
    line.append(codec);
    line.append("\"");
    let mut v = lines_of(file);
    let ghost ls = lines(file@);
    match find_section(&v) {
        None => {
            let chars = text::chars_of(file);
            let mut out = file.to_owned();
            if chars.len() == 0 || chars[chars.len() - 1] != '\n' {
                out.push('\n');
            }
            out.append("\n[encode]\n");
            out.append(line.as_str());
            out.append("\n");
            assert(out@ =~= config::extended(file@, new_section(codec@)));
            Ok(out)
        },
        Some(h) => {
            assert(h < v.len());
            match find_codec(&v, h + 1) {
                Some(k) => {
                    v.set(k, line);
                    assert(text::views(v@) =~= ls.update(k as int, codec_line(codec@)));
                },
                None => {
                    v.insert(h + 1, line);
                    assert(text::views(v@) =~= ls.insert(h + 1, codec_line(codec@)));
                },
            }
            Ok(text::join(&v, "\n"))
        },
    }
}

// ---- laws ----

proof fn lemma_lines_nonempty(s: Seq<char>)
    ensures
        lines(s).len() > 0,
    decreases s.len(),
{
    if s.len() > 0 {
        lemma_lines_nonempty(s.drop_last());
    }
}

/// What is appended to a text without a break goes to its last line.
proof fn lemma_lines_append(a: Seq<char>, line: Seq<char>)
    requires
        !line.contains('\n'),
    ensures
        lines(a + line) == lines(a).drop_last().push(lines(a).last() + line),
    decreases line.len(),
{
    lemma_lines_nonempty(a);
    if line.len() == 0 {
        assert(a + line =~= a);
        assert(lines(a).last() + line =~= lines(a).last());
        assert(lines(a).drop_last().push(lines(a).last()) =~= lines(a));
    } else {
        let d = line.drop_last();
        assert(line[line.len() - 1] != '\n');
        assert forall|i: int| 0 <= i < d.len() implies d[i] != '\n' by {
            assert(line[i] != '\n');
        }
        lemma_lines_append(a, d);
        assert((a + line).drop_last() =~= a + d);
        let before = lines(a + d);
        assert(before.drop_last() =~= lines(a).drop_last());
        assert((lines(a).last() + d).push(line.last()) =~= lines(a).last() + line);
    }
}

proof fn lemma_lines_break(a: Seq<char>)
    ensures
        lines(a + "\n"@) == lines(a).push(Seq::empty()),
{
    reveal_strlit("\n");
    assert((a + "\n"@).drop_last() =~= a);
}

/// A text of one more line.
proof fn lemma_lines_push(a: Seq<char>, line: Seq<char>)
    requires
        !line.contains('\n'),
    ensures
        lines(a + "\n"@ + line) == lines(a).push(line),
{
    lemma_lines_break(a);
    lemma_lines_append(a + "\n"@, line);
    assert(lines(a + "\n"@).drop_last() =~= lines(a));
    assert(Seq::<char>::empty() + line =~= line);
}

proof fn lemma_lines_of_joined(ls: Seq<Seq<char>>)
    requires
        ls.len() > 0,
        forall|i: int| 0 <= i < ls.len() ==> !(#[trigger] ls[i]).contains('\n'),
    ensures
        lines(text::joined(ls, "\n"@)) == ls,
    decreases ls.len(),
{
    let none = Seq::<char>::empty();
    if ls.len() == 1 {
        lemma_lines_append(none, ls[0]);
        assert(none + ls[0] =~= ls[0]);
        assert(lines(ls[0]) =~= ls);
    } else {
        let before = ls.drop_last();
        assert forall|i: int| 0 <= i < before.len() implies !(#[trigger] before[i]).contains(
            '\n',
        ) by {
            assert(before[i] == ls[i]);
        }
        lemma_lines_of_joined(before);
        assert(ls.last() == ls[ls.len() - 1]);
        lemma_lines_push(text::joined(before, "\n"@), ls.last());
        assert(before.push(ls.last()) =~= ls);
    }
}

proof fn lemma_no_break_in_lines(s: Seq<char>)
    ensures
        forall|i: int| 0 <= i < lines(s).len() ==> !(#[trigger] lines(s)[i]).contains('\n'),
    decreases s.len(),
{
    if s.len() > 0 {
        let before = lines(s.drop_last());
        lemma_no_break_in_lines(s.drop_last());
        lemma_lines_nonempty(s.drop_last());
        assert forall|i: int| 0 <= i < lines(s).len() implies !(#[trigger] lines(s)[i]).contains(
            '\n',
        ) by {
            if s.last() != '\n' && i == before.len() - 1 {
                let l = before.last().push(s.last());
                assert(!before[before.len() - 1].contains('\n'));
                assert forall|k: int| 0 <= k < l.len() implies l[k] != '\n' by {
                    if k < before.last().len() {
                        assert(l[k] == before.last()[k]);
                    }
                }
            } else if i < before.len() {
                assert(lines(s)[i] == before[i]);
            }
        }
    }
}

proof fn lemma_cut_keeps_front(s: Seq<char>, c: char, i: int)
    requires
        0 <= i <= s.len(),
    ensures
        i <= cut_at(s, c, i).len() <= s.len(),
        cut_at(s, c, i) == s.take(cut_at(s, c, i).len() as int),
    decreases s.len() - i,
{
    if i < s.len() && s[i] != c {
        lemma_cut_keeps_front(s, c, i + 1);
    }
}

proof fn lemma_trim_end_keeps_front(s: Seq<char>)
    requires
        s.len() > 0,
        !text::is_space(s[0]),
    ensures
        text::trim_end(s).len() > 0,
        text::trim_end(s)[0] == s[0],
    decreases s.len(),
{
    if text::is_space(s.last()) {
        assert(s.drop_last()[0] == s[0]);
        lemma_trim_end_keeps_front(s.drop_last());
    }
}

/// The line that sets a codec does so, opens no section, and is one line.
proof fn lemma_codec_line(codec: Seq<char>)
    requires
        known_codecs().contains(codec),
    ensures
        sets_codec(codec_line(codec)),
        section_of(codec_line(codec)) is None,
        !codec_line(codec).contains('\n'),
{
    reveal_strlit("codec = \"");
    reveal_strlit("\"");
    reveal_strlit("codec");
    let line = codec_line(codec);
    assert(line[0] == 'c' && line[5] == ' ' && line[6] == '=');
    assert(cut_at(line, '=', 0) == line.take(6)) by {
        reveal_with_fuel(cut_at, 8);
    }
    let key = line.take(6);
    assert(key.drop_last() =~= "codec"@);
    assert(text::trim_start(key) == key);
    assert(text::trim_end(key) == text::trim_end("codec"@));
    assert(text::trim_end("codec"@) == "codec"@);

    let shown = cut_at(line, '#', 0);
    assert(cut_at(line, '#', 0) == cut_at(line, '#', 1));
    lemma_cut_keeps_front(line, '#', 1);
    assert(shown[0] == 'c');
    lemma_trim_end_keeps_front(shown);
    assert(text::trimmed(shown)[0] == 'c');

    assert(!codec.contains('\n')) by {
        reveal_strlit("auto");
        reveal_strlit("h264_vaapi");
        reveal_strlit("h264_nvenc");
        reveal_strlit("h264_qsv");
        reveal_strlit("h264_amf");
        reveal_strlit("libx264");
        let k = choose|k: int| 0 <= k < known_codecs().len() && known_codecs()[k] == codec;
        assert(0 <= k < 6);
        assert(codec.len() <= 10);
    }
    assert forall|i: int| 0 <= i < line.len() implies line[i] != '\n' by {
        if 9 <= i < 9 + codec.len() {
            assert(line[i] == codec[i - 9]);
        }
    }
}

proof fn lemma_same_section(a: Seq<Seq<char>>, b: Seq<Seq<char>>, i: int, h: int)
    requires
        0 <= i,
        encode_section(a, i) == Some(h),
        h < b.len(),
        forall|j: int| 0 <= j <= h ==> #[trigger] a[j] == b[j],
    ensures
        i <= h < a.len(),
        encode_section(b, i) == Some(h),
    decreases a.len() - i,
{
    if section_of(a[i]) != Some("encode"@) {
        lemma_same_section(a, b, i + 1, h);
        assert(a[i] == b[i]);
    }
}

proof fn lemma_section_bounds(a: Seq<Seq<char>>, i: int)
    requires
        0 <= i,
    ensures
        encode_section(a, i) matches Some(h) ==> i <= h < a.len(),
    decreases a.len() - i,
{
    if i < a.len() && section_of(a[i]) != Some("encode"@) {
        lemma_section_bounds(a, i + 1);
    }
}

proof fn lemma_codec_bounds(a: Seq<Seq<char>>, i: int)
    requires
        0 <= i,
    ensures
        codec_in_section(a, i) matches Some(k) ==> i <= k < a.len(),
    decreases a.len() - i,
{
    if i < a.len() && section_of(a[i]) is None && !sets_codec(a[i]) {
        lemma_codec_bounds(a, i + 1);
    }
}

proof fn lemma_same_codec(a: Seq<Seq<char>>, b: Seq<Seq<char>>, i: int, k: int)
    requires
        0 <= i,
        codec_in_section(a, i) == Some(k),
        k < b.len(),
        forall|j: int| i <= j < k ==> #[trigger] a[j] == b[j],
        section_of(b[k]) is None,
        sets_codec(b[k]),
    ensures
        codec_in_section(b, i) == Some(k),
    decreases a.len() - i,
{
    lemma_codec_bounds(a, i);
    if i < k {
        assert(a[i] == b[i]);
        lemma_same_codec(a, b, i + 1, k);
    }
}

/// Setting a codec changes one line: the one that sets it, where there is one; else a line is put
/// behind the header of the section; and where there is no such section, the file is only extended.
pub proof fn setting_a_codec_keeps_the_rest(file: Seq<char>, codec: Seq<char>)
    requires
        known_codecs().contains(codec),
    ensures
        ({
            let ls = lines(file);
            let f = codec_set(file, codec);
            match encode_section(ls, 0) {
                None => file.len() <= f.len() && f.take(file.len() as int) == file,
                Some(h) => match codec_in_section(ls, h + 1) {
                    Some(k) => lines(f) == ls.update(k, codec_line(codec)),
                    None => lines(f) == ls.insert(h + 1, codec_line(codec)),
                },
            }
        }),
{
    let ls = lines(file);
    lemma_codec_line(codec);
    lemma_no_break_in_lines(file);
    lemma_lines_nonempty(file);
    lemma_section_bounds(ls, 0);
    match encode_section(ls, 0) {
        None => {
            let f = codec_set(file, codec);
            assert(f.take(file.len() as int) =~= file);
        },
        Some(h) => {
            lemma_codec_bounds(ls, h + 1);
            match codec_in_section(ls, h + 1) {
                Some(k) => {
                    lemma_lines_of_joined(ls.update(k, codec_line(codec)));
                },
                None => {
                    let t = ls.insert(h + 1, codec_line(codec));
                    assert forall|i: int| 0 <= i < t.len() implies !(#[trigger] t[i]).contains(
                        '\n',
                    ) by {
                        if i <= h {
                            assert(t[i] == ls[i]);
                        } else if i > h + 1 {
                            assert(t[i] == ls[i - 1]);
                        }
                    }
                    lemma_lines_of_joined(t);
                },
            }
        },
    }
}

/// The lines of a file to which a section was added.
proof fn lemma_new_section(file: Seq<char>, codec: Seq<char>)
    requires
        known_codecs().contains(codec),
    ensures
        ({
            let start = config::extended(file, Seq::empty());
            lines(codec_set(file, codec)) == lines(start) + seq![
                "[encode]"@,
                codec_line(codec),
                Seq::empty(),
            ]
        }) || encode_section(lines(file), 0) is Some,
{
    if encode_section(lines(file), 0) is None {
        reveal_strlit("\n[encode]\n");
        reveal_strlit("[encode]");
        reveal_strlit("\n");
        lemma_codec_line(codec);
        let start = config::extended(file, Seq::empty());
        let line = codec_line(codec);
        let a = start + "\n"@ + "[encode]"@;
        let b = a + "\n"@ + line;
        let none = Seq::<char>::empty();
        assert(!"[encode]"@.contains('\n'));
        lemma_lines_push(start, "[encode]"@);
        lemma_lines_push(a, line);
        lemma_lines_break(b);
        assert(codec_set(file, codec) =~= b + "\n"@);
        assert(lines(b + "\n"@) =~= lines(start) + seq!["[encode]"@, line, none]);
    }
}

proof fn lemma_no_section(a: Seq<Seq<char>>, b: Seq<Seq<char>>, i: int)
    requires
        0 <= i <= a.len() <= b.len(),
        encode_section(a, i) is None,
        forall|j: int| 0 <= j < a.len() ==> #[trigger] a[j] == b[j],
    ensures
        encode_section(b, i) == encode_section(b, a.len() as int),
    decreases a.len() - i,
{
    if i < a.len() {
        assert(a[i] == b[i]);
        lemma_no_section(a, b, i + 1);
    }
}

/// A codec that was set is the one that is set, in the section of the encoder.
pub proof fn the_codec_is_set(file: Seq<char>, codec: Seq<char>)
    requires
        known_codecs().contains(codec),
    ensures
        codec_setting(codec_set(file, codec)) == Some(codec_line(codec)),
{
    let ls = lines(file);
    let f = codec_set(file, codec);
    let t = lines(f);
    lemma_codec_line(codec);
    setting_a_codec_keeps_the_rest(file, codec);
    lemma_section_bounds(ls, 0);
    match encode_section(ls, 0) {
        Some(h) => {
            lemma_codec_bounds(ls, h + 1);
            match codec_in_section(ls, h + 1) {
                Some(k) => {
                    lemma_same_section(ls, t, 0, h);
                    lemma_same_codec(ls, t, h + 1, k);
                },
                None => {
                    assert forall|j: int| 0 <= j <= h implies #[trigger] ls[j] == t[j] by {}
                    lemma_same_section(ls, t, 0, h);
                    assert(t[h + 1] == codec_line(codec));
                },
            }
        },
        None => {
            lemma_new_section(file, codec);
            let start = config::extended(file, Seq::empty());
            let n = lines(start).len() as int;
            assert(encode_section(lines(start), 0) is None) by {
                lemma_extended_has_no_section(file);
            }
            lemma_no_section(lines(start), t, 0);
            assert(t[n] == "[encode]"@);
            assert(t[n + 1] == codec_line(codec));
            assert(section_of("[encode]"@) == Some("encode"@)) by {
                lemma_header();
            }
        },
    }
}

proof fn lemma_header()
    ensures
        section_of("[encode]"@) == Some("encode"@),
{
    reveal_strlit("[encode]");
    reveal_strlit("encode");
    let l = "[encode]"@;
    assert(cut_at(l, '#', 0) == l) by {
        reveal_with_fuel(cut_at, 10);
        assert(l.take(8) =~= l);
    }
    text::lemma_trimmed_as_is(l);
    assert(l.subrange(1, 7) =~= "encode"@);
    text::lemma_trimmed_as_is("encode"@);
}

proof fn lemma_extended_has_no_section(file: Seq<char>)
    requires
        encode_section(lines(file), 0) is None,
    ensures
        encode_section(lines(config::extended(file, Seq::empty())), 0) is None,
{
    let start = config::extended(file, Seq::empty());
    if file.len() > 0 && file.last() == '\n' {
        assert(start =~= file);
    } else {
        reveal_strlit("\n");
        assert(start =~= file + "\n"@);
        lemma_lines_break(file);
        let ls = lines(file);
        let t = lines(start);
        lemma_no_section(ls, t, 0);
        assert(t[ls.len() as int] =~= Seq::<char>::empty());
        assert(section_of(Seq::empty()) is None) by {
            let none = Seq::<char>::empty();
            assert(cut_at(none, '#', 0) =~= none);
            assert(text::trimmed(none) =~= none);
        }
        reveal_with_fuel(encode_section, 3);
    }
}

// ---- laws of lines, sections and settings ----

/// The codecs that can be set are those of the encoders, and `auto`.
pub proof fn six_codecs_can_be_set(codec: Seq<char>)
    ensures
        known_codecs().contains(codec) <==> codec == "auto"@ || codec == "h264_vaapi"@ || codec
            == "h264_nvenc"@ || codec == "h264_qsv"@ || codec == "h264_amf"@ || codec == "libx264"@,
{
    let known = known_codecs();
    assert(known[0] == "auto"@ && known[1] == "h264_vaapi"@ && known[2] == "h264_nvenc"@);
    assert(known[3] == "h264_qsv"@ && known[4] == "h264_amf"@ && known[5] == "libx264"@);
}

/// A text without a break is one line; a break and another line behind a text add that line.
pub proof fn lines_end_at_breaks(a: Seq<char>, line: Seq<char>)
    requires
        !line.contains('\n'),
    ensures
        lines(line) == seq![line],
        lines(a + "\n"@ + line) == lines(a).push(line),
{
    let none = Seq::<char>::empty();
    lemma_lines_append(none, line);
    assert(none + line =~= line);
    assert(lines(line) =~= seq![line]);
    lemma_lines_push(a, line);
}

proof fn lemma_cut_at(front: Seq<char>, c: char, rest: Seq<char>, i: int)
    requires
        0 <= i <= front.len(),
        forall|k: int| 0 <= k < front.len() ==> #[trigger] front[k] != c,
        rest.len() > 0 ==> rest[0] == c,
    ensures
        cut_at(front + rest, c, i) == front,
    decreases front.len() - i,
{
    let s = front + rest;
    if i < front.len() {
        assert(s[i] == front[i]);
        lemma_cut_at(front, c, rest, i + 1);
    } else {
        assert(rest.len() > 0 ==> s[i] == rest[0]);
        assert(s.take(i) =~= front);
    }
}

proof fn lemma_trim_end_of_blank_front(s: Seq<char>)
    ensures
        text::trim_end(s).len() <= s.len(),
        text::trim_end(s).len() > 0 ==> text::trim_end(s)[0] == s[0],
    decreases s.len(),
{
    if s.len() > 0 && text::is_space(s.last()) {
        lemma_trim_end_of_blank_front(s.drop_last());
    }
}

/// A line opens the section whose name stands in brackets on it, without the white space around the
/// name; a comment behind it does not count, and a line that begins with anything else opens none.
pub proof fn a_name_in_brackets_opens_a_section(name: Seq<char>, line: Seq<char>, comment: Seq<char>)
    requires
        !name.contains('#'),
        !line.contains('#'),
    ensures
        section_of(seq!['['] + name + seq![']']) == Some(text::trimmed(name)),
        section_of(line + seq!['#'] + comment) == section_of(line),
        line.len() > 0 && !text::is_space(line[0]) && line[0] != '[' ==> section_of(line) is None,
        line.len() > 0 && !text::is_space(line.last()) && line.last() != ']' ==> section_of(line)
            is None,
{
    let none = Seq::<char>::empty();
    let l = seq!['['] + name + seq![']'];
    assert forall|k: int| 0 <= k < l.len() implies #[trigger] l[k] != '#' by {
        if 1 <= k < l.len() - 1 {
            assert(l[k] == name[k - 1]);
            assert(name.contains(name[k - 1]));
        }
    }
    lemma_cut_at(l, '#', none, 0);
    assert(l + none =~= l);
    text::lemma_trimmed_as_is(l);
    assert(l.subrange(1, l.len() - 1) =~= name);
    assert forall|k: int| 0 <= k < line.len() implies #[trigger] line[k] != '#' by {
        assert(line.contains(line[k]));
    }
    lemma_cut_at(line, '#', none, 0);
    assert(line + none =~= line);
    lemma_cut_at(line, '#', seq!['#'] + comment, 0);
    assert(line + seq!['#'] + comment =~= line + (seq!['#'] + comment));
    if line.len() > 0 && !text::is_space(line[0]) {
        assert(text::trim_start(line) == line);
        lemma_trim_end_of_blank_front(line);
    }
    if line.len() > 0 && !text::is_space(line.last()) {
        lemma_trim_start_keeps_back(line);
        let t = text::trim_start(line);
        assert(text::trim_end(t) == t);
    }
}

proof fn lemma_trim_start_keeps_back(s: Seq<char>)
    requires
        s.len() > 0,
        !text::is_space(s.last()),
    ensures
        text::trim_start(s).len() > 0,
        text::trim_start(s).last() == s.last(),
    decreases s.len(),
{
    if text::is_space(s[0]) {
        let t = s.skip(1);
        assert(t.len() > 0);
        assert(t.last() == s.last());
        lemma_trim_start_keeps_back(t);
    }
}

/// A line sets the codec where `codec` stands in front of its first equals sign, but for white space;
/// without an equals sign it sets nothing.
pub proof fn a_line_sets_what_stands_before_its_sign(
    key: Seq<char>,
    value: Seq<char>,
)
    requires
        !key.contains('='),
    ensures
        sets_codec(key + seq!['='] + value) <==> text::trimmed(key) == "codec"@,
        !sets_codec(key),
{
    let none = Seq::<char>::empty();
    assert forall|k: int| 0 <= k < key.len() implies #[trigger] key[k] != '=' by {
        assert(key.contains(key[k]));
    }
    lemma_cut_at(key, '=', seq!['='] + value, 0);
    assert(key + seq!['='] + value =~= key + (seq!['='] + value));
    lemma_cut_at(key, '=', none, 0);
    assert(key + none =~= key);
}

/// The section of the encoder is the first with the name `encode`.
pub proof fn the_first_encode_section_counts(ls: Seq<Seq<char>>, i: int)
    requires
        0 <= i,
    ensures
        match encode_section(ls, i) {
            Some(h) => i <= h < ls.len() && section_of(ls[h]) == Some("encode"@) && forall|j: int|
                i <= j < h ==> section_of(#[trigger] ls[j]) != Some("encode"@),
            None => forall|j: int|
                i <= j < ls.len() ==> section_of(#[trigger] ls[j]) != Some("encode"@),
        },
    decreases ls.len() - i,
{
    if i < ls.len() && section_of(ls[i]) != Some("encode"@) {
        the_first_encode_section_counts(ls, i + 1);
    }
}

/// The codec is set by the first line that does so, before any other section begins.
pub proof fn the_first_setting_in_a_section_counts(ls: Seq<Seq<char>>, i: int)
    requires
        0 <= i,
    ensures
        match codec_in_section(ls, i) {
            Some(k) => i <= k < ls.len() && sets_codec(ls[k]) && forall|j: int|
                i <= j <= k ==> section_of(#[trigger] ls[j]) is None && (sets_codec(ls[j]) ==> j == k),
            None => exists|end: int|
                i <= end && (end >= ls.len() || section_of(#[trigger] ls[end]) is Some) && forall|
                    j: int,
                |
                    i <= j < end ==> !sets_codec(#[trigger] ls[j]),
        },
    decreases ls.len() - i,
{
    if i < ls.len() && section_of(ls[i]) is None && !sets_codec(ls[i]) {
        the_first_setting_in_a_section_counts(ls, i + 1);
        match codec_in_section(ls, i + 1) {
            Some(k) => {},
            None => {
                let end = choose|end: int|
                    i + 1 <= end && (end >= ls.len() || section_of(#[trigger] ls[end]) is Some)
                        && forall|j: int| i + 1 <= j < end ==> !sets_codec(#[trigger] ls[j]);
                assert(i <= end && (end >= ls.len() || section_of(ls[end]) is Some));
                assert forall|j: int| i <= j < end implies !sets_codec(#[trigger] ls[j]) by {}
            },
        }
    } else if i >= ls.len() || section_of(ls[i]) is Some {
        let end = i;
        assert(i <= end && (end >= ls.len() || section_of(ls[end]) is Some));
    }
}

/// The codec is written in quotes behind its name; a file without the section gets one at its end, on
/// lines of its own.
pub proof fn a_codec_is_written_in_quotes(file: Seq<char>, codec: Seq<char>)
    ensures
        codec_line(codec) == "codec = \""@ + codec + "\""@,
        encode_section(lines(file), 0) is None ==> codec_set(file, codec) == (if file.len() > 0
            && file.last() == '\n' {
            file
        } else {
            file + seq!['\n']
        }) + ("\n[encode]\n"@ + ("codec = \""@ + codec + "\""@) + "\n"@),
{
    assert(file.push('\n') =~= file + seq!['\n']);
}

/// A codec is set where it is one of the six, and refused and named where it is not.
pub proof fn only_a_known_codec_is_set(file: &str, codec: &str, res: Result<String, UnknownCodec>)
    requires
        call_ensures(with_codec, (file, codec), res),
    ensures
        res is Ok <==> codec@ == "auto"@ || codec@ == "h264_vaapi"@ || codec@ == "h264_nvenc"@ || codec@
            == "h264_qsv"@ || codec@ == "h264_amf"@ || codec@ == "libx264"@,
        res matches Ok(f) ==> codec_setting(f@) == Some("codec = \""@ + codec@ + "\""@),
        res matches Err(e) ==> e.codec@ == codec@,
{
    six_codecs_can_be_set(codec@);
    if res is Ok {
        the_codec_is_set(file@, codec@);
    }
}

/// White space around what opens a section makes no difference.
pub proof fn a_section_may_be_indented(line: Seq<char>, c: char)
    requires
        !line.contains('#'),
        text::is_space(c),
    ensures
        section_of(seq![c] + line) == section_of(line),
        section_of(line + seq![c]) == section_of(line),
{
    let none = Seq::<char>::empty();
    let (a, b) = (seq![c] + line, line + seq![c]);
    assert forall|k: int| 0 <= k < line.len() implies #[trigger] line[k] != '#' by {
        assert(line.contains(line[k]));
    }
    assert forall|k: int| 0 <= k < a.len() implies #[trigger] a[k] != '#' by {
        if k > 0 {
            assert(a[k] == line[k - 1]);
        }
    }
    assert forall|k: int| 0 <= k < b.len() implies #[trigger] b[k] != '#' by {
        if k < line.len() {
            assert(b[k] == line[k]);
        }
    }
    lemma_cut_at(line, '#', none, 0);
    lemma_cut_at(a, '#', none, 0);
    lemma_cut_at(b, '#', none, 0);
    assert(line + none =~= line && a + none =~= a && b + none =~= b);
    text::white_space_around_makes_no_difference(line, c);
}

} // verus!
