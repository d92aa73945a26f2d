//! Request lines: splitting into words and routing to a resource.

use vstd::prelude::*;

verus! {

/// Status line sent with the home page.
pub const STATUS_OK: &'static str = "HTTP/1.1 200 OK";

/// Status line sent for every request that is not for the home page.
pub const STATUS_NOT_FOUND: &'static str = "HTTP/1.1 404 NOT FOUND";

/// Resource served for `GET /`.
pub const HOME_RESOURCE: &'static str = "hello.html";

/// Resource served for everything else.
pub const NOT_FOUND_RESOURCE: &'static str = "404.html";

/// Whether `c` separates words: the code points with the Unicode property
/// `White_Space`.
pub open spec fn is_whitespace(c: char) -> bool {
    let u = c as u32;
    ||| 0x09 <= u <= 0x0D
    ||| u == 0x20
    ||| u == 0x85
    ||| u == 0xA0
    ||| u == 0x1680
    ||| 0x2000 <= u <= 0x200A
    ||| u == 0x2028
    ||| u == 0x2029
    ||| u == 0x202F
    ||| u == 0x205F
    ||| u == 0x3000
}

/// Length of the longest prefix of `s` that holds no whitespace.
pub open spec fn word_len(s: Seq<char>) -> nat
    decreases s.len(),
{
    if s.len() == 0 || is_whitespace(s[0]) {
        0
    } else {
        1 + word_len(s.skip(1))
    }
}

/// The maximal runs of non-whitespace characters of `s`, in order.
pub open spec fn words(s: Seq<char>) -> Seq<Seq<char>>
    decreases s.len(),
    via words_decreases
{
    if s.len() == 0 {
        Seq::empty()
    } else if is_whitespace(s[0]) {
        words(s.skip(1))
    } else {
        seq![s.take(word_len(s) as int)] + words(s.skip(word_len(s) as int))
    }
}

#[via_fn]
proof fn words_decreases(s: Seq<char>) {
    lemma_word_len_bounds(s);
}

/// A word is never longer than the text it starts, and is not empty where
/// the text starts with a character that is no whitespace.
pub proof fn lemma_word_len_bounds(s: Seq<char>)
    ensures
        word_len(s) <= s.len(),
        s.len() > 0 && !is_whitespace(s[0]) ==> word_len(s) >= 1,
    decreases s.len(),
{
    if s.len() > 0 && !is_whitespace(s[0]) {
        lemma_word_len_bounds(s.skip(1));
    }
}

/// A request for the home page: exactly three words, `GET`, `/` and a
/// protocol version that is not looked at.
pub open spec fn is_home_request(s: Seq<char>) -> bool {
    &&& words(s).len() == 3
    &&& words(s)[0] == seq!['G', 'E', 'T']
    &&& words(s)[1] == seq!['/']
}

/// Executable form of [`is_whitespace`].
pub fn char_is_whitespace(c: char) -> (b: bool)
    ensures
        b == is_whitespace(c),
{
    let u: u32 = c as u32;
    (0x09 <= u && u <= 0x0D) || u == 0x20 || u == 0x85 || u == 0xA0 || u == 0x1680 || (0x2000 <= u
        && u <= 0x200A) || u == 0x2028 || u == 0x2029 || u == 0x202F || u == 0x205F || u == 0x3000
}

/// The characters of `s`, in order.
pub fn chars_of(s: &str) -> (v: Vec<char>)
    ensures
        v@ == s@,
{
    broadcast use vstd::string::group_string_axioms;

    let mut v: Vec<char> = Vec::new();
    for c in it: s.chars()
        invariant
            it.seq() == s@,
            v@ == s@.take(it.index() as int),
    {
        v.push(c);
    }
    v
}

/// Peeling one whitespace character off the front changes no word.
proof fn lemma_words_skip_whitespace(s: Seq<char>, i: int)
    requires
        0 <= i < s.len(),
        is_whitespace(s[i]),
    ensures
        words(s.skip(i)) == words(s.skip(i + 1)),
{
    assert(s.skip(i).skip(1) == s.skip(i + 1));
}

/// A word that starts at `start` and runs up to `end` is the first word of
/// what follows `start`, and the other words are those of what follows `end`.
proof fn lemma_words_take_word(s: Seq<char>, start: int, end: int)
    requires
        0 <= start < end <= s.len(),
        !is_whitespace(s[start]),
        word_len(s.skip(start)) == end - start,
    ensures
        words(s.skip(start)) == seq![s.subrange(start, end)] + words(s.skip(end)),
{
    let t = s.skip(start);
    assert(t.take(end - start) == s.subrange(start, end));
    assert(t.skip(end - start) == s.skip(end));
}

/// One more character that is no whitespace lengthens the word by one.
proof fn lemma_word_len_step(s: Seq<char>, i: int)
    requires
        0 <= i < s.len(),
        !is_whitespace(s[i]),
    ensures
        word_len(s.skip(i)) == 1 + word_len(s.skip(i + 1)),
{
    assert(s.skip(i).skip(1) == s.skip(i + 1));
}

/// The views of the words in `out`.
pub open spec fn word_views(out: Seq<Vec<char>>) -> Seq<Seq<char>> {
    Seq::new(out.len(), |k: int| out[k]@)
}

/// Splits `text` at whitespace; empty words are not produced.
pub fn split_whitespace(text: &Vec<char>) -> (out: Vec<Vec<char>>)
    ensures
        word_views(out@) == words(text@),
{
    let mut out: Vec<Vec<char>> = Vec::new();
    let mut i: usize = 0;
    proof {
        assert(text@.skip(0) == text@);
        assert(word_views(out@) + words(text@.skip(0)) == words(text@));
    }
    while i < text.len()
        invariant
            i <= text.len(),
            word_views(out@) + words(text@.skip(i as int)) == words(text@),
        decreases text.len() - i,
    {
        if char_is_whitespace(text[i]) {
            proof {
                lemma_words_skip_whitespace(text@, i as int);
            }
            i += 1;
        } else {
            let start: usize = i;
            let mut word: Vec<char> = Vec::new();
            while i < text.len() && !char_is_whitespace(text[i])
                invariant
                    start <= i <= text.len(),
                    word@ == text@.subrange(start as int, i as int),
                    word_len(text@.skip(start as int)) == (i - start) + word_len(
                        text@.skip(i as int),
                    ),
                decreases text.len() - i,
            {
                proof {
                    lemma_word_len_step(text@, i as int);
                }
                word.push(text[i]);
                i += 1;
            }
            proof {
                assert(start < i);
                assert(word_len(text@.skip(i as int)) == 0);
                lemma_words_take_word(text@, start as int, i as int);
                let before = word_views(out@);
                assert(word_views(out@.push(word)) == before + seq![word@]);
            }
            out.push(word);
        }
    }
    proof {
        assert(words(text@.skip(i as int)) == Seq::<Seq<char>>::empty());
        assert(word_views(out@) + Seq::<Seq<char>>::empty() == word_views(out@));
    }
    out
}

/// What is served for the request line `s`: the home page for a home
/// request, the not-found page for everything else.
pub open spec fn route_of(s: Seq<char>) -> (Seq<char>, Seq<char>) {
    if is_home_request(s) {
        (STATUS_OK@, HOME_RESOURCE@)
    } else {
        (STATUS_NOT_FOUND@, NOT_FOUND_RESOURCE@)
    }
}

/// Routes a request line to a status line and the name of the resource to
/// send with it.
pub fn parse_http_request(request: &String) -> (route: (&'static str, &'static str))
    ensures
        (route.0@, route.1@) == route_of(request@),
{
    let text = chars_of(request.as_str());
    let parts = split_whitespace(&text);
    assert(words(request@).len() == parts@.len());
    if parts.len() == 3 {
        assert(words(request@)[0] == parts@[0]@);
        assert(words(request@)[1] == parts@[1]@);
        let method = &parts[0];
        let path = &parts[1];
        if method.len() == 3 && method[0] == 'G' && method[1] == 'E' && method[2] == 'T'
            && path.len() == 1 && path[0] == '/' {
            assert(method@ =~= seq!['G', 'E', 'T']);
            assert(path@ =~= seq!['/']);
            return (STATUS_OK, HOME_RESOURCE);
        }
        assert(!is_home_request(request@)) by {
            if method@ == seq!['G', 'E', 'T'] && path@ == seq!['/'] {
                assert(method@.len() == 3 && method@[0] == 'G');
                assert(path@.len() == 1 && path@[0] == '/');
            }
        }
    }
    (STATUS_NOT_FOUND, NOT_FOUND_RESOURCE)
}

/// Whether `line` ends the head of a request: the blank line after the
/// request line and the headers.
pub fn ends_head(line: &str) -> (ends: bool)
    ensures
        ends == (line@.len() == 0),
{
    line.is_empty()
}

/// The request line among the lines of a request's head: the first line,
/// or nothing where the head is empty.
pub open spec fn request_line(head: Seq<String>) -> Seq<char> {
    if head.len() > 0 {
        head[0]@
    } else {
        Seq::empty()
    }
}

/// Chooses what to answer to a request whose head, the lines received up
/// to the first blank one, is `http_request`. A head with no line at all
/// is answered as not found.
pub fn handle_connection(http_request: &Vec<String>) -> (route: (&'static str, &'static str))
    ensures
        (route.0@, route.1@) == route_of(request_line(http_request@)),
{
    if http_request.len() > 0 {
        parse_http_request(&http_request[0])
    } else {
        assert(words(Seq::<char>::empty()).len() == 0);
        (STATUS_NOT_FOUND, NOT_FOUND_RESOURCE)
    }
}

} // verus!
