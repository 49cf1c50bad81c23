use vstd::prelude::*;

verus! {

/// The whitespace that separates the words of a line: the characters with the
/// Unicode `White_Space` property, as `char::is_whitespace` takes them.
pub open spec fn is_space(c: char) -> bool {
    let u = c as u32;
    (0x9 <= u && u <= 0xd) || u == 0x20 || u == 0x85 || u == 0xa0 || u == 0x1680 || (0x2000 <= u
        && u <= 0x200a) || u == 0x2028 || u == 0x2029 || u == 0x202f || u == 0x205f || u == 0x3000
}

/// The whitespace-separated words of `s`, in order, none of them empty.
pub open spec fn words(s: Seq<char>) -> Seq<Seq<char>>
    decreases s.len(),
{
    if s.len() == 0 {
        seq![]
    } else {
        let prev = words(s.drop_last());
        let c = s.last();
        if is_space(c) {
            prev
        } else if s.len() >= 2 && !is_space(s[s.len() - 2]) {
            prev.update(prev.len() - 1, prev.last().push(c))
        } else {
            prev.push(seq![c])
        }
    }
}

/// The words joined by single spaces.
pub open spec fn join(ws: Seq<Seq<char>>) -> Seq<char>
    decreases ws.len(),
{
    if ws.len() == 0 {
        seq![]
    } else if ws.len() == 1 {
        ws[0]
    } else {
        join(ws.drop_last()) + seq![' '] + ws.last()
    }
}

pub proof fn lemma_words_nonempty(s: Seq<char>)
    requires
        s.len() > 0,
        !is_space(s.last()),
    ensures
        words(s).len() > 0,
    decreases s.len(),
{
    if s.len() >= 2 && !is_space(s[s.len() - 2]) {
        lemma_words_nonempty(s.drop_last());
    }
}

/// Relies on String::push: appends one character.
#[verifier::external_body]
pub(crate) fn push_char(s: &mut String, c: char)
    ensures
        final(s)@ == old(s)@.push(c),
{
    s.push(c);
}

/// The characters of `s`.
pub fn chars_of(s: &str) -> (r: Vec<char>)
    ensures
        r@ == s@,
{
    let n = s.unicode_len();
    let mut r: Vec<char> = Vec::new();
    let mut i: usize = 0;
    while i < n
        invariant
            n == s@.len(),
            i <= n,
            r@ == s@.take(i as int),
        decreases n - i,
    {
        r.push(s.get_char(i));
        i = i + 1;
        assert(r@ =~= s@.take(i as int));
    }
    assert(r@ =~= s@);
    r
}

/// Appends `cs[lo..hi]` to `out`.
pub fn append_chars(out: &mut String, cs: &Vec<char>, lo: usize, hi: usize)
    requires
        lo <= hi <= cs@.len(),
    ensures
        final(out)@ == old(out)@ + cs@.subrange(lo as int, hi as int),
{
    let mut i: usize = lo;
    while i < hi
        invariant
            lo <= i <= hi <= cs@.len(),
            out@ == old(out)@ + cs@.subrange(lo as int, i as int),
        decreases hi - i,
    {
        push_char(out, cs[i]);
        i = i + 1;
        assert(out@ =~= old(out)@ + cs@.subrange(lo as int, i as int));
    }
}

pub fn is_space_char(c: char) -> (r: bool)
    ensures
        r == is_space(c),
{
    let u = c as u32;
    (0x9 <= u && u <= 0xd) || u == 0x20 || u == 0x85 || u == 0xa0 || u == 0x1680 || (0x2000 <= u
        && u <= 0x200a) || u == 0x2028 || u == 0x2029 || u == 0x202f || u == 0x205f || u == 0x3000
}

/// Splits `s` into its whitespace-separated words.
pub fn split_words(s: &Vec<char>) -> (r: Vec<Vec<char>>)
    ensures
        r.deep_view() == words(s@),
{
    let mut r: Vec<Vec<char>> = Vec::new();
    let mut i: usize = 0;
    while i < s.len()
        invariant
            i <= s@.len(),
            r.deep_view() == words(s@.take(i as int)),
        decreases s@.len() - i,
    {
        let c = s[i];
        let ghost prev = s@.take(i as int);
        let ghost cur = s@.take(i as int + 1);
        assert(cur.drop_last() =~= prev);
        assert(cur.last() == c);
        let ghost old_dv = r.deep_view();
        let ghost old_r = r@;
        if is_space_char(c) {
        } else if i >= 1 && !is_space_char(s[i - 1]) {
            assert(prev.last() == s@[i - 1]);
            assert(cur[cur.len() - 2] == s@[i - 1]);
            proof {
                lemma_words_nonempty(prev);
            }
            assert(words(cur) == old_dv.update(old_dv.len() - 1, old_dv.last().push(c)));
            let mut last = r.pop().unwrap();
            last.push(c);
            assert(last.deep_view() =~= last@);
            assert(old_r.last().deep_view() =~= old_r.last()@);
            r.push(last);
            assert(r.deep_view() =~= old_dv.update(old_dv.len() - 1, old_dv.last().push(c))) by {
                assert forall|j: int| 0 <= j < r@.len() - 1 implies r@[j] == old_r[j] by {}
            }
        } else {
            let mut w: Vec<char> = Vec::new();
            w.push(c);
            assert(i >= 1 ==> cur[cur.len() - 2] == s@[i - 1]);
            assert(words(cur) == old_dv.push(seq![c]));
            r.push(w);
            assert(w.deep_view() =~= seq![c]);
            assert(r.deep_view() =~= old_dv.push(seq![c])) by {
                assert forall|j: int| 0 <= j < r@.len() - 1 implies r@[j] == old_r[j] by {}
            }
        }
        i = i + 1;
    }
    assert(s@.take(i as int) =~= s@);
    r
}

/// Joins `ws[from..]` with single spaces.
pub fn join_from(ws: &Vec<Vec<char>>, from: usize) -> (r: String)
    requires
        from <= ws@.len(),
    ensures
        r@ == join(ws.deep_view().skip(from as int)),
{
    let mut r = String::new();
    let mut i: usize = from;
    while i < ws.len()
        invariant
            from <= i <= ws@.len(),
            r@ == join(ws.deep_view().subrange(from as int, i as int)),
        decreases ws@.len() - i,
    {
        let ghost before = ws.deep_view().subrange(from as int, i as int);
        let ghost after = ws.deep_view().subrange(from as int, i as int + 1);
        assert(after.drop_last() =~= before);
        if i > from {
            push_char(&mut r, ' ');
        }
        let w = &ws[i];
        append_chars(&mut r, w, 0, w.len());
        assert(w@.subrange(0, w@.len() as int) =~= w@);
        assert(r@ =~= join(after));
        i = i + 1;
    }
    assert(ws.deep_view().subrange(from as int, i as int) =~= ws.deep_view().skip(from as int));
    r
}

} // verus!
