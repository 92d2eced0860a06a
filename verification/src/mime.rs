//! Content-type guessing for attachments.
//!
//! The preferred source is the system's file-type tool, whose output
//! (`<path>: <type>/<subtype>; <params>`) is parsed and validated here;
//! running the tool itself is I/O and happens outside the library. When
//! the tool fails or its output does not parse, the guess falls back to
//! the path's extension, mapped over a fixed table with
//! `application/octet-stream` as the default.

use vstd::prelude::*;

use crate::strutil::spec_lower;

verus! {

/// A content type as its text form, `type/subtype` with optional
/// parameters.
#[derive(Debug, Clone, PartialEq, Eq)]
pub struct MimeType {
    pub text: String,
}

impl View for MimeType {
    type V = Seq<char>;

    open spec fn view(&self) -> Seq<char> {
        self.text@
    }
}

impl MimeType {
    /// The text form.
    pub fn as_str(&self) -> (r: &str)
        ensures
            r@ == self@,
    {
        self.text.as_str()
    }
}

/// A character allowed in a `type` or `subtype` token: printable ASCII
/// that is not a delimiter.
pub open spec fn spec_token_char(c: char) -> bool {
    &&& 33 <= (c as u32) <= 126
    &&& c != '(' && c != ')' && c != '<' && c != '>' && c != '@'
    &&& c != ',' && c != ';' && c != ':' && c != '\\' && c != '"'
    &&& c != '/' && c != '[' && c != ']' && c != '?' && c != '='
}

fn token_char(c: char) -> (r: bool)
    ensures
        r == spec_token_char(c),
{
    let n = c as u32;
    33 <= n && n <= 126 && c != '(' && c != ')' && c != '<' && c != '>' && c != '@' && c != ','
        && c != ';' && c != ':' && c != '\\' && c != '"' && c != '/' && c != '[' && c != ']' && c
        != '?' && c != '='
}

/// All characters in `[a, b)` are token characters.
pub open spec fn spec_token_run(s: Seq<char>, a: int, b: int) -> bool {
    forall|j: int| a <= j < b ==> spec_token_char(#[trigger] s[j])
}

fn token_run(s: &str, a: usize, b: usize) -> (r: bool)
    requires
        a <= b <= s@.len(),
    ensures
        r == spec_token_run(s@, a as int, b as int),
{
    let mut i: usize = a;
    while i < b
        invariant
            a <= i <= b <= s@.len(),
            forall|j: int| a <= j < i ==> spec_token_char(#[trigger] s@[j]),
        decreases b - i,
    {
        if !token_char(s.get_char(i)) {
            return false;
        }
        i += 1;
    }
    true
}

/// First index of `c` at or after `from`; `-1` when there is none.
pub open spec fn spec_find_char(s: Seq<char>, c: char, from: int) -> int
    decreases s.len() - from,
{
    if from < 0 || from >= s.len() {
        -1
    } else if s[from] == c {
        from
    } else {
        spec_find_char(s, c, from + 1)
    }
}

fn find_char(s: &str, c: char, from: usize) -> (r: Option<usize>)
    requires
        from <= s@.len(),
    ensures
        match r {
            Some(i) => from <= i < s@.len() && spec_find_char(s@, c, from as int) == i as int,
            None => spec_find_char(s@, c, from as int) == -1,
        },
{
    let n = s.unicode_len();
    let mut i: usize = from;
    while i < n
        invariant
            from <= i <= n,
            n == s@.len(),
            spec_find_char(s@, c, from as int) == spec_find_char(s@, c, i as int),
        decreases n - i,
    {
        if s.get_char(i) == c {
            return Some(i);
        }
        i += 1;
    }
    None
}

/// Last index of `c`; `-1` when there is none.
pub open spec fn spec_rfind_char(s: Seq<char>, c: char) -> int
    decreases s.len(),
{
    if s.len() == 0 {
        -1
    } else if s.last() == c {
        s.len() - 1
    } else {
        spec_rfind_char(s.drop_last(), c)
    }
}

fn rfind_char(s: &str, c: char) -> (r: Option<usize>)
    ensures
        match r {
            Some(i) => i < s@.len() && spec_rfind_char(s@, c) == i as int,
            None => spec_rfind_char(s@, c) == -1,
        },
{
    let n = s.unicode_len();
    proof {
        assert(s@.subrange(0, n as int) =~= s@);
    }
    let mut i: usize = n;
    while i > 0
        invariant
            i <= n,
            n == s@.len(),
            spec_rfind_char(s@, c) == spec_rfind_char(s@.subrange(0, i as int), c),
        decreases i,
    {
        proof {
            assert(s@.subrange(0, i as int).drop_last() =~= s@.subrange(0, i - 1 as int));
            assert(s@.subrange(0, i as int).last() == s@[i - 1]);
        }
        if s.get_char(i - 1) == c {
            return Some(i - 1);
        }
        i -= 1;
    }
    proof {
        assert(s@.subrange(0, 0) =~= Seq::<char>::empty());
    }
    None
}

/// The final path component: everything after the last slash.
pub open spec fn spec_file_name(path: Seq<char>) -> Seq<char> {
    path.subrange(spec_rfind_char(path, '/') + 1, path.len() as int)
}

/// The path's extension: what follows the last dot of the final
/// component, unless that component has no dot or only a leading one.
pub open spec fn spec_extension(path: Seq<char>) -> Option<Seq<char>> {
    let name = spec_file_name(path);
    let dot = spec_rfind_char(name, '.');
    if dot <= 0 {
        None
    } else {
        Some(name.subrange(dot + 1, name.len() as int))
    }
}

/// Extracts the path's extension.
pub fn extension_of(path: &str) -> (r: Option<String>)
    ensures
        match r {
            Some(e) => spec_extension(path@) == Some(e@),
            None => spec_extension(path@) is None,
        },
{
    let n = path.unicode_len();
    let name_start: usize = match rfind_char(path, '/') {
        Some(i) => i + 1,
        None => 0,
    };
    let name = path.substring_char(name_start, n);
    proof {
        assert(name@ =~= spec_file_name(path@));
    }
    let name_len = name.unicode_len();
    match rfind_char(name, '.') {
        None => None,
        Some(0) => None,
        Some(d) => {
            let e = name.substring_char(d + 1, name_len);
            Some(e.to_owned())
        },
    }
}

/// The fallback table from a lower-cased extension to a content type.
pub open spec fn spec_mime_for_ext(ext: Option<Seq<char>>) -> Seq<char> {
    match ext {
        None => "application/octet-stream"@,
        Some(e) => {
            let l = spec_lower(e);
            if l == "jpg"@ || l == "jpeg"@ {
                "image/jpeg"@
            } else if l == "gif"@ {
                "image/gif"@
            } else if l == "png"@ {
                "image/png"@
            } else if l == "pdf"@ {
                "application/pdf"@
            } else if l == "opus"@ || l == "ogg"@ {
                "audio/ogg"@
            } else if l == "mp3"@ {
                "audio/mp3"@
            } else {
                "application/octet-stream"@
            }
        },
    }
}

fn eq_lower(e: &str, lit: &str) -> (r: bool)
    requires
        spec_lower(lit@) == lit@,
    ensures
        r == (spec_lower(e@) == lit@),
{
    let le = crate::strutil::eq_ignore_ascii_case(e, lit);
    le
}

/// Maps a path to a content type by its extension alone, case
/// insensitively; unknown and absent extensions give
/// `application/octet-stream`.
pub fn guess_mime_extension(path: &str) -> (r: MimeType)
    ensures
        r@ == spec_mime_for_ext(spec_extension(path@)),
{
    let text: &str = match extension_of(path) {
        None => "application/octet-stream",
        Some(e) => {
            proof {
                reveal_strlit("jpg");
                reveal_strlit("jpeg");
                reveal_strlit("gif");
                reveal_strlit("png");
                reveal_strlit("pdf");
                reveal_strlit("opus");
                reveal_strlit("ogg");
                reveal_strlit("mp3");
                lemma_lower_literals();
            }
            let e = e.as_str();
            if eq_lower(e, "jpg") || eq_lower(e, "jpeg") {
                "image/jpeg"
            } else if eq_lower(e, "gif") {
                "image/gif"
            } else if eq_lower(e, "png") {
                "image/png"
            } else if eq_lower(e, "pdf") {
                "application/pdf"
            } else if eq_lower(e, "opus") || eq_lower(e, "ogg") {
                "audio/ogg"
            } else if eq_lower(e, "mp3") {
                "audio/mp3"
            } else {
                "application/octet-stream"
            }
        },
    };
    MimeType { text: text.to_owned() }
}

proof fn lemma_lower_literals()
    ensures
        spec_lower("jpg"@) == "jpg"@,
        spec_lower("jpeg"@) == "jpeg"@,
        spec_lower("gif"@) == "gif"@,
        spec_lower("png"@) == "png"@,
        spec_lower("pdf"@) == "pdf"@,
        spec_lower("opus"@) == "opus"@,
        spec_lower("ogg"@) == "ogg"@,
        spec_lower("mp3"@) == "mp3"@,
{
    reveal_strlit("jpg");
    reveal_strlit("jpeg");
    reveal_strlit("gif");
    reveal_strlit("png");
    reveal_strlit("pdf");
    reveal_strlit("opus");
    reveal_strlit("ogg");
    reveal_strlit("mp3");
    assert(spec_lower("jpg"@) =~= "jpg"@);
    assert(spec_lower("jpeg"@) =~= "jpeg"@);
    assert(spec_lower("gif"@) =~= "gif"@);
    assert(spec_lower("png"@) =~= "png"@);
    assert(spec_lower("pdf"@) =~= "pdf"@);
    assert(spec_lower("opus"@) =~= "opus"@);
    assert(spec_lower("ogg"@) =~= "ogg"@);
    assert(spec_lower("mp3"@) =~= "mp3"@);
}

/// A well-formed content-type text: a nonempty `type` token, a slash, a
/// nonempty `subtype` token, then either nothing or `;` followed by at
/// least one parameter character. Parameters are carried, not inspected.
pub open spec fn spec_valid_mime(s: Seq<char>) -> bool {
    let slash = spec_find_char(s, '/', 0);
    if slash <= 0 {
        false
    } else if !spec_token_run(s, 0, slash) {
        false
    } else {
        let semi = spec_find_char(s, ';', slash + 1);
        let sub_end = if semi == -1 {
            s.len() as int
        } else {
            semi
        };
        if sub_end == slash + 1 {
            false
        } else if !spec_token_run(s, slash + 1, sub_end) {
            false
        } else if semi != -1 {
            semi + 1 < s.len()
        } else {
            true
        }
    }
}

/// Checks the content-type essence of a text.
pub fn is_valid_mime(s: &str) -> (r: bool)
    ensures
        r == spec_valid_mime(s@),
{
    let n = s.unicode_len();
    match find_char(s, '/', 0) {
        None => false,
        Some(slash) => {
            if slash == 0 {
                return false;
            }
            if !token_run(s, 0, slash) {
                return false;
            }
            let sub_end: usize = match find_char(s, ';', slash + 1) {
                None => n,
                Some(semi) => semi,
            };
            if sub_end == slash + 1 {
                return false;
            }
            if !token_run(s, slash + 1, sub_end) {
                return false;
            }
            if sub_end < n {
                sub_end + 1 < n
            } else {
                true
            }
        },
    }
}

/// A whitespace character as the trim of tool output understands it.
pub open spec fn spec_ws(c: char) -> bool {
    c == ' ' || c == '\t' || c == '\n' || c == '\r'
}

/// `s` without trailing whitespace.
pub open spec fn spec_trim_end(s: Seq<char>) -> Seq<char>
    decreases s.len(),
{
    if s.len() > 0 && spec_ws(s.last()) {
        spec_trim_end(s.drop_last())
    } else {
        s
    }
}

/// `s` without leading whitespace.
pub open spec fn spec_trim_start(s: Seq<char>) -> Seq<char>
    decreases s.len(),
{
    if s.len() > 0 && spec_ws(s[0]) {
        spec_trim_start(s.drop_first())
    } else {
        s
    }
}

/// `s` without leading and trailing whitespace.
pub open spec fn spec_trim(s: Seq<char>) -> Seq<char> {
    spec_trim_start(spec_trim_end(s))
}

fn is_ws(c: char) -> (r: bool)
    ensures
        r == spec_ws(c),
{
    c == ' ' || c == '\t' || c == '\n' || c == '\r'
}

fn trimmed(s: &str) -> (r: String)
    ensures
        r@ == spec_trim(s@),
{
    let n = s.unicode_len();
    proof {
        assert(s@.subrange(0, n as int) =~= s@);
    }
    let mut b: usize = n;
    while b > 0 && is_ws(s.get_char(b - 1))
        invariant
            b <= n,
            n == s@.len(),
            spec_trim_end(s@) == spec_trim_end(s@.subrange(0, b as int)),
        decreases b,
    {
        proof {
            assert(s@.subrange(0, b as int).drop_last() =~= s@.subrange(0, b - 1 as int));
        }
        b -= 1;
    }
    proof {
        if b > 0 {
            assert(!spec_ws(s@.subrange(0, b as int).last()));
        }
        assert(spec_trim_end(s@) == s@.subrange(0, b as int));
    }
    let mut a: usize = 0;
    while a < b && is_ws(s.get_char(a))
        invariant
            a <= b <= n,
            n == s@.len(),
            spec_trim_end(s@) == s@.subrange(0, b as int),
            spec_trim_start(s@.subrange(0, b as int)) == spec_trim_start(
                s@.subrange(a as int, b as int),
            ),
        decreases b - a,
    {
        proof {
            assert(s@.subrange(a as int, b as int).drop_first() =~= s@.subrange(
                a + 1 as int,
                b as int,
            ));
        }
        a += 1;
    }
    proof {
        if a < b {
            assert(!spec_ws(s@.subrange(a as int, b as int)[0]));
        } else {
            assert(s@.subrange(a as int, b as int) =~= Seq::<char>::empty());
        }
        assert(spec_trim(s@) == s@.subrange(a as int, b as int));
    }
    let t = s.substring_char(a, b);
    t.to_owned()
}

/// What the file-type tool's output yields: the text after the first
/// colon, trimmed of whitespace, when that text is a well-formed content
/// type; nothing otherwise.
pub open spec fn spec_tool_mime(out: Seq<char>) -> Option<Seq<char>> {
    let colon = spec_find_char(out, ':', 0);
    if colon == -1 {
        None
    } else {
        let rest = spec_trim(out.subrange(colon + 1, out.len() as int));
        if spec_valid_mime(rest) {
            Some(rest)
        } else {
            None
        }
    }
}

/// Parses one line of the file-type tool's output (`<path>: <type>`)
/// into a content type; `None` when there is no colon or the rest is not
/// a well-formed content type.
pub fn parse_file_tool_output(out: &str) -> (r: Option<MimeType>)
    ensures
        match r {
            Some(m) => spec_tool_mime(out@) == Some(m@),
            None => spec_tool_mime(out@) is None,
        },
{
    let n = out.unicode_len();
    match find_char(out, ':', 0) {
        None => None,
        Some(colon) => {
            let rest = out.substring_char(colon + 1, n);
            let t = trimmed(rest);
            if is_valid_mime(t.as_str()) {
                Some(MimeType { text: t })
            } else {
                None
            }
        },
    }
}

/// The overall guess: what the file-type tool reported when it ran and
/// its output parses, the extension table otherwise.
pub open spec fn spec_guess_mime(tool_output: Option<Seq<char>>, path: Seq<char>) -> Seq<char> {
    match tool_output {
        Some(o) => match spec_tool_mime(o) {
            Some(m) => m,
            None => spec_mime_for_ext(spec_extension(path)),
        },
        None => spec_mime_for_ext(spec_extension(path)),
    }
}

/// Guesses a file's content type: from the file-type tool's output when
/// available and parseable, from the path's extension otherwise.
pub fn guess_mime(tool_output: Option<&str>, path: &str) -> (r: MimeType)
    ensures
        match tool_output {
            Some(o) => r@ == spec_guess_mime(Some(o@), path@),
            None => r@ == spec_guess_mime(None, path@),
        },
{
    match tool_output {
        Some(o) => match parse_file_tool_output(o) {
            Some(m) => m,
            None => guess_mime_extension(path),
        },
        None => guess_mime_extension(path),
    }
}

} // verus!
