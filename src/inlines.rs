use vstd::prelude::*;
use crate::text::{append_chars, chars_of, is_space, is_space_char, push_char};

verus! {

/// A run of formatted text within a line.
#[derive(Debug, PartialEq, Eq)]
pub enum Inlines {
    Text,
    Bold,
    Italic,
    Code,
    Link(String),
    Footnote,
}

impl Inlines {
    /// The tag with its attributes, as written inside an opening tag.
    pub open spec fn tag_text(self) -> Option<Seq<char>> {
        match self {
            Inlines::Text => None,
            Inlines::Bold => Some("strong"@),
            Inlines::Italic => Some("em"@),
            Inlines::Code => Some("code"@),
            Inlines::Link(href) => Some("a href=\""@ + href@ + "\""@),
            Inlines::Footnote => Some("span data-type=\"footnote\""@),
        }
    }

    pub open spec fn open_text(self) -> Option<Seq<char>> {
        match self.tag_text() {
            Some(t) => Some("<"@ + t + ">"@),
            None => None,
        }
    }

    /// The closing tag names the element only, without attributes.
    pub open spec fn close_text(self) -> Option<Seq<char>> {
        match self {
            Inlines::Text => None,
            Inlines::Bold => Some("</strong>"@),
            Inlines::Italic => Some("</em>"@),
            Inlines::Code => Some("</code>"@),
            Inlines::Link(_) => Some("</a>"@),
            Inlines::Footnote => Some("</span>"@),
        }
    }

    pub fn tag(&self) -> (r: Option<String>)
        ensures
            r.is_some() == self.tag_text().is_some(),
            r.is_some() ==> r.unwrap()@ == self.tag_text().unwrap(),
    {
        match self {
            Inlines::Text => None,
            Inlines::Bold => Some(String::from_str("strong")),
            Inlines::Italic => Some(String::from_str("em")),
            Inlines::Code => Some(String::from_str("code")),
            Inlines::Link(href) => {
                let mut t = String::from_str("a href=\"");
                t.append(href.as_str());
                t.append("\"");
                Some(t)
            },
            Inlines::Footnote => Some(String::from_str("span data-type=\"footnote\"")),
        }
    }

    pub fn open_tag(&self) -> (r: Option<String>)
        ensures
            r.is_some() == self.open_text().is_some(),
            r.is_some() ==> r.unwrap()@ == self.open_text().unwrap(),
    {
        match self.tag() {
            Some(t) => {
                let mut o = String::from_str("<");
                o.append(t.as_str());
                o.append(">");
                Some(o)
            },
            None => None,
        }
    }

    pub fn close_tag(&self) -> (r: Option<String>)
        ensures
            r.is_some() == self.close_text().is_some(),
            r.is_some() ==> r.unwrap()@ == self.close_text().unwrap(),
    {
        match self {
            Inlines::Text => None,
            Inlines::Bold => Some(String::from_str("</strong>")),
            Inlines::Italic => Some(String::from_str("</em>")),
            Inlines::Code => Some(String::from_str("</code>")),
            Inlines::Link(_) => Some(String::from_str("</a>")),
            Inlines::Footnote => Some(String::from_str("</span>")),
        }
    }

    /// Renders every complete span of `line`. Spans never stay open past the end of
    /// a line (an unmatched delimiter is literal text), so the span left open is
    /// always `Text`.
    pub fn convert_complete_tags(line: String) -> (r: (String, Self))
        ensures
            r.0@ == render_line(line@),
            r.1 == Inlines::Text,
    {
        (render_str(line.as_str()), Inlines::Text)
    }
}

/// A character that opens and closes a span of its own kind.
pub open spec fn is_delim(c: char) -> bool {
    c == '*' || c == '_' || c == '`'
}

/// The span that a delimiter character marks.
pub open spec fn delim_kind(c: char) -> Inlines {
    if c == '*' {
        Inlines::Bold
    } else if c == '_' {
        Inlines::Italic
    } else {
        Inlines::Code
    }
}

/// Whether `s[i..]` (before `hi`) starts with `pat`.
pub open spec fn matches_at(s: Seq<char>, i: int, hi: int, pat: Seq<char>) -> bool {
    0 <= i && i + pat.len() <= hi && s.subrange(i, i + pat.len()) == pat
}

/// The first position in `[from, hi)` holding `c`.
pub open spec fn find_char(s: Seq<char>, c: char, from: int, hi: int) -> Option<int>
    decreases hi - from,
{
    if from >= hi {
        None
    } else if s[from] == c {
        Some(from)
    } else {
        find_char(s, c, from + 1, hi)
    }
}

/// The first position in `[from, hi)` holding `c` not escaped by a backslash.
pub open spec fn find_close(s: Seq<char>, c: char, from: int, hi: int) -> Option<int>
    decreases hi - from,
{
    if from >= hi {
        None
    } else if s[from] == c && s[from - 1] != '\\' {
        Some(from)
    } else {
        find_close(s, c, from + 1, hi)
    }
}

/// The text that introduces a footnote's content.
pub open spec fn footnote_marker() -> Seq<char> {
    ".footnote["@
}

/// Whether a bare URL starts at `i`.
pub open spec fn is_url_start(s: Seq<char>, i: int, hi: int) -> bool {
    matches_at(s, i, hi, "https://"@) || matches_at(s, i, hi, "http://"@)
}

/// Where a URL that starts at `from` ends: at the first whitespace or `[`.
pub open spec fn url_end(s: Seq<char>, from: int, hi: int) -> int
    decreases hi - from,
{
    if from >= hi {
        hi
    } else if is_space(s[from]) || s[from] == '[' {
        from
    } else {
        url_end(s, from + 1, hi)
    }
}

/// The opening tag of a link to `url`.
pub open spec fn link_open(url: Seq<char>) -> Seq<char> {
    "<"@ + "a href=\""@ + url + "\""@ + ">"@
}

/// The rendered piece that starts at `i`, and where the next one starts.
pub open spec fn piece(s: Seq<char>, i: int, hi: int) -> (Seq<char>, int)
    decreases hi - i, 0int,
{
    if i < 0 || i >= hi {
        (seq![], hi)
    } else if s[i] == '\\' && i + 1 < hi && is_delim(s[i + 1]) {
        (seq![s[i + 1]], i + 2)
    } else if matches_at(s, i, hi, footnote_marker()) && find_char(s, ']', i + 10, hi) is Some {
        let k = find_char(s, ']', i + 10, hi)->0;
        (Inlines::Footnote.open_text().unwrap() + s.subrange(i + 10, k)
            + Inlines::Footnote.close_text().unwrap(), k + 1)
    } else if is_url_start(s, i, hi) {
        let e = url_end(s, i, hi);
        let url = s.subrange(i, e);
        if e < hi && s[e] == '[' && find_char(s, ']', e + 1, hi) is Some {
            let k = find_char(s, ']', e + 1, hi)->0;
            (link_open(url) + s.subrange(e + 1, k) + "</a>"@, k + 1)
        } else {
            (link_open(url) + url + "</a>"@, e)
        }
    } else if is_delim(s[i]) && find_close(s, s[i], i + 1, hi) is Some && i + 1 <= find_close(
        s,
        s[i],
        i + 1,
        hi,
    )->0 < hi {
        let j = find_close(s, s[i], i + 1, hi)->0;
        let k = delim_kind(s[i]);
        (k.open_text().unwrap() + render(s, i + 1, j) + k.close_text().unwrap(), j + 1)
    } else {
        (seq![s[i]], i + 1)
    }
}

/// `s[lo..hi]` with every complete span replaced by its tags.
pub open spec fn render(s: Seq<char>, lo: int, hi: int) -> Seq<char>
    decreases hi - lo, 1int,
{
    if lo < 0 || lo >= hi {
        seq![]
    } else {
        let (p, e) = piece(s, lo, hi);
        if lo < e <= hi {
            p + render(s, e, hi)
        } else {
            seq![]
        }
    }
}

/// A whole line with every complete span replaced by its tags.
pub open spec fn render_line(s: Seq<char>) -> Seq<char> {
    render(s, 0, s.len() as int)
}

proof fn lemma_find_char_range(s: Seq<char>, c: char, from: int, hi: int)
    ensures
        find_char(s, c, from, hi) is Some ==> from <= find_char(s, c, from, hi)->0 < hi
            && s[find_char(s, c, from, hi)->0] == c,
    decreases hi - from,
{
    if from < hi && s[from] != c {
        lemma_find_char_range(s, c, from + 1, hi);
    }
}

proof fn lemma_url_end_range(s: Seq<char>, from: int, hi: int)
    requires
        from <= hi,
    ensures
        from <= url_end(s, from, hi) <= hi,
    decreases hi - from,
{
    if from < hi && !(is_space(s[from]) || s[from] == '[') {
        lemma_url_end_range(s, from + 1, hi);
    }
}

fn url_end_exec(s: &Vec<char>, from: usize, hi: usize) -> (r: usize)
    requires
        from <= hi <= s@.len(),
    ensures
        r == url_end(s@, from as int, hi as int),
    decreases hi - from,
{
    if from >= hi {
        hi
    } else if is_space_char(s[from]) || s[from] == '[' {
        from
    } else {
        url_end_exec(s, from + 1, hi)
    }
}

/// Appends a link to `s[i..e]` whose text is `s[lo..k]`.
fn append_link(out: &mut String, s: &Vec<char>, i: usize, e: usize, lo: usize, k: usize)
    requires
        i <= e <= s@.len(),
        lo <= k <= s@.len(),
    ensures
        final(out)@ == old(out)@ + link_open(s@.subrange(i as int, e as int)) + s@.subrange(
            lo as int,
            k as int,
        ) + "</a>"@,
{
    let mut url = String::new();
    append_chars(&mut url, s, i, e);
    let link = Inlines::Link(url);
    append_opt(out, link.open_tag());
    append_chars(out, s, lo, k);
    append_opt(out, link.close_tag());
    assert(out@ =~= old(out)@ + link_open(s@.subrange(i as int, e as int)) + s@.subrange(
        lo as int,
        k as int,
    ) + "</a>"@);
}

proof fn lemma_find_close_range(s: Seq<char>, c: char, from: int, hi: int)
    ensures
        find_close(s, c, from, hi) is Some ==> from <= find_close(s, c, from, hi)->0 < hi,
    decreases hi - from,
{
    if from < hi && !(s[from] == c && s[from - 1] != '\\') {
        lemma_find_close_range(s, c, from + 1, hi);
    }
}

fn is_delim_char(c: char) -> (r: bool)
    ensures
        r == is_delim(c),
{
    c == '*' || c == '_' || c == '`'
}

fn find_char_exec(s: &Vec<char>, c: char, from: usize, hi: usize) -> (r: Option<usize>)
    requires
        from <= hi <= s@.len(),
    ensures
        match r {
            Some(k) => find_char(s@, c, from as int, hi as int) == Some(k as int),
            None => find_char(s@, c, from as int, hi as int) is None,
        },
    decreases hi - from,
{
    if from >= hi {
        None
    } else if s[from] == c {
        Some(from)
    } else {
        find_char_exec(s, c, from + 1, hi)
    }
}

fn find_close_exec(s: &Vec<char>, c: char, from: usize, hi: usize) -> (r: Option<usize>)
    requires
        1 <= from <= hi <= s@.len(),
    ensures
        match r {
            Some(k) => find_close(s@, c, from as int, hi as int) == Some(k as int),
            None => find_close(s@, c, from as int, hi as int) is None,
        },
    decreases hi - from,
{
    if from >= hi {
        None
    } else if s[from] == c && s[from - 1] != '\\' {
        Some(from)
    } else {
        find_close_exec(s, c, from + 1, hi)
    }
}

pub(crate) fn matches_exec(s: &Vec<char>, i: usize, hi: usize, pat: &Vec<char>) -> (r: bool)
    requires
        i <= hi <= s@.len(),
    ensures
        r == matches_at(s@, i as int, hi as int, pat@),
{
    if pat.len() > hi - i {
        return false;
    }
    let mut k: usize = 0;
    while k < pat.len()
        invariant
            i + pat@.len() <= hi <= s@.len(),
            k <= pat@.len(),
            s@.subrange(i as int, i + k) == pat@.take(k as int),
        decreases pat@.len() - k,
    {
        if s[i + k] != pat[k] {
            assert(s@.subrange(i as int, i + pat@.len())[k as int] != pat@[k as int]);
            return false;
        }
        k = k + 1;
        assert(s@.subrange(i as int, i + k) =~= pat@.take(k as int));
    }
    assert(pat@.take(k as int) =~= pat@);
    true
}

fn append_opt(out: &mut String, t: Option<String>)
    requires
        t is Some,
    ensures
        final(out)@ == old(out)@ + t.unwrap()@,
{
    match t {
        Some(t) => out.append(t.as_str()),
        None => {},
    }
}

fn delim_kind_exec(c: char) -> (r: Inlines)
    ensures
        r == delim_kind(c),
{
    if c == '*' {
        Inlines::Bold
    } else if c == '_' {
        Inlines::Italic
    } else {
        Inlines::Code
    }
}

/// Appends the piece that starts at `i` and returns where the next one starts.
fn append_piece(out: &mut String, s: &Vec<char>, i: usize, hi: usize) -> (e: usize)
    requires
        i < hi <= s@.len(),
    ensures
        final(out)@ == old(out)@ + piece(s@, i as int, hi as int).0,
        e == piece(s@, i as int, hi as int).1,
        i < e <= hi,
    decreases hi - i, 0int,
{
    let c = s[i];
    if c == '\\' && i + 1 < hi && is_delim_char(s[i + 1]) {
        push_char(out, s[i + 1]);
        assert(out@ =~= old(out)@ + seq![s@[i + 1]]);
        return i + 2;
    }
    let marker = chars_of(".footnote[");
    proof {
        reveal_strlit(".footnote[");
    }
    if matches_exec(s, i, hi, &marker) {
        assert(marker@.len() == 10);
        if let Some(k) = find_char_exec(s, ']', i + 10, hi) {
            proof {
                lemma_find_char_range(s@, ']', i + 10, hi as int);
            }
            append_opt(out, Inlines::Footnote.open_tag());
            append_chars(out, s, i + 10, k);
            append_opt(out, Inlines::Footnote.close_tag());
            return k + 1;
        }
    }
    let https = chars_of("https://");
    let http = chars_of("http://");
    if matches_exec(s, i, hi, &https) || matches_exec(s, i, hi, &http) {
        proof {
            reveal_strlit("https://");
            reveal_strlit("http://");
            if matches_at(s@, i as int, hi as int, "https://"@) {
                assert(s@.subrange(i as int, i + 8)[0] == s@[i as int]);
            } else {
                assert(s@.subrange(i as int, i + 7)[0] == s@[i as int]);
            }
            assert(s@[i as int] == 'h');
            lemma_url_end_range(s@, i + 1, hi as int);
        }
        let e = url_end_exec(s, i, hi);
        assert(e > i);
        if e < hi && s[e] == '[' {
            if let Some(k) = find_char_exec(s, ']', e + 1, hi) {
                proof {
                    lemma_find_char_range(s@, ']', e + 1, hi as int);
                }
                append_link(out, s, i, e, e + 1, k);
                return k + 1;
            }
        }
        append_link(out, s, i, e, i, e);
        return e;
    }
    if is_delim_char(c) {
        if let Some(j) = find_close_exec(s, c, i + 1, hi) {
            proof {
                lemma_find_close_range(s@, c, i + 1, hi as int);
            }
            let k = delim_kind_exec(c);
            let inner = render_range(s, i + 1, j);
            append_opt(out, k.open_tag());
            out.append(inner.as_str());
            append_opt(out, k.close_tag());
            return j + 1;
        }
    }
    push_char(out, c);
    assert(out@ =~= old(out)@ + seq![c]);
    i + 1
}

/// Renders `s[lo..hi]`.
fn render_range(s: &Vec<char>, lo: usize, hi: usize) -> (r: String)
    requires
        lo <= hi <= s@.len(),
    ensures
        r@ == render(s@, lo as int, hi as int),
    decreases hi - lo, 1int,
{
    let mut out = String::new();
    let mut i: usize = lo;
    while i < hi
        invariant
            lo <= i <= hi <= s@.len(),
            render(s@, lo as int, hi as int) == out@ + render(s@, i as int, hi as int),
        decreases hi - i,
    {
        let ghost before = out@;
        let e = append_piece(&mut out, s, i, hi);
        assert(render(s@, i as int, hi as int) == piece(s@, i as int, hi as int).0 + render(
            s@,
            e as int,
            hi as int,
        ));
        assert(before + render(s@, i as int, hi as int) =~= out@ + render(s@, e as int, hi as int));
        i = e;
    }
    assert(out@ =~= out@ + render(s@, i as int, hi as int));
    out
}

/// Renders a whole line.
pub fn render_str(line: &str) -> (r: String)
    ensures
        r@ == render_line(line@),
{
    let cs = chars_of(line);
    render_range(&cs, 0, cs.len())
}

/// Where the closing `"]` of a role attribute starts, scanning from `k`: the first
/// one, provided no line break comes before it.
pub open spec fn role_close(s: Seq<char>, k: int) -> Option<int>
    decreases s.len() - k,
{
    if k < 0 || k + 2 > s.len() {
        None
    } else if s[k] == '"' && s[k + 1] == ']' {
        Some(k)
    } else if s[k] == '\n' {
        None
    } else {
        role_close(s, k + 1)
    }
}

/// The value of the leftmost `[role="..."]` at or after `i`, shortest value first.
pub open spec fn role_from(s: Seq<char>, i: int) -> Option<Seq<char>>
    decreases s.len() - i,
{
    if i < 0 || i + 7 > s.len() {
        None
    } else if s.subrange(i, i + 7) == "[role=\""@ && role_close(s, i + 7) is Some {
        Some(s.subrange(i + 7, role_close(s, i + 7)->0))
    } else {
        role_from(s, i + 1)
    }
}

/// The class named by the first role attribute in `s`, if any.
pub open spec fn role_value(s: Seq<char>) -> Option<Seq<char>> {
    role_from(s, 0)
}

/// Relies on regex::Regex::captures with the pattern `\[role="(.*?)"\]`: the leftmost
/// match, with the lazy group taking the shortest text (no line break) before `"]`.
#[verifier::external_body]
fn role_capture(line: &str) -> (r: Option<String>)
    ensures
        match r {
            Some(v) => role_value(line@) == Some(v@),
            None => role_value(line@) is None,
        },
{
    let re = regex::Regex::new(r#"\[role="(.*?)"\]"#).unwrap();
    match re.captures(line) {
        Some(caps) => match caps.get(1) {
            Some(m) => Some(m.as_str().to_string()),
            None => None,
        },
        None => None,
    }
}

/// The class of a `[role="name"]` line; `None` where the line holds no such attribute.
pub fn get_class_from_role(line: &str) -> (r: Option<String>)
    ensures
        match r {
            Some(v) => role_value(line@) == Some(v@),
            None => role_value(line@) is None,
        },
{
    role_capture(line)
}

} // verus!
