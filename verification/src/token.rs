//! Scraping the session token out of the service's landing page.
//!
//! The page embeds the token in a fixed textual pattern: the literal
//! `api_token`, optional whitespace, a colon, optional whitespace, then the
//! token itself — one or more word characters — between single quotes. The
//! scraper finds the leftmost occurrence of that pattern.

use vstd::prelude::*;
use vstd::string::*;
use crate::error::Error;

verus! {

/// A word character of the token pattern: an ASCII letter, digit or
/// underscore.
pub open spec fn is_word_char(c: char) -> bool {
    ('a' <= c && c <= 'z') || ('A' <= c && c <= 'Z') || ('0' <= c && c <= '9') || c == '_'
}

/// A whitespace character of the token pattern.
pub open spec fn is_space_char(c: char) -> bool {
    c == ' ' || c == '\t' || c == '\n' || c == '\r' || c == '\u{b}' || c == '\u{c}'
}

/// Every character of `s` is whitespace.
pub open spec fn all_space(s: Seq<char>) -> bool {
    forall|k: int| 0 <= k < s.len() ==> is_space_char(s[k])
}

/// Every character of `s` is a word character.
pub open spec fn all_word(s: Seq<char>) -> bool {
    forall|k: int| 0 <= k < s.len() ==> is_word_char(s[k])
}

/// The pattern instance that starts at `i`, spelled out: the literal, then
/// whitespace up to the colon at `a`, then whitespace up to the opening
/// quote at `b`, then the token, then the closing quote.
pub open spec fn token_at_with(s: Seq<char>, i: int, a: int, b: int, tok: Seq<char>) -> bool {
    0 <= i && i + 9 <= a && a < b && b + 1 + tok.len() < s.len() && s.subrange(i, i + 9)
        == "api_token"@ && all_space(s.subrange(i + 9, a)) && s[a] == ':' && all_space(
        s.subrange(a + 1, b),
    ) && s[b] == '\'' && tok.len() >= 1 && tok == s.subrange(b + 1, b + 1 + tok.len()) && all_word(
        tok,
    ) && s[b + 1 + tok.len()] == '\''
}

/// An instance of the token pattern starts at `i` and captures `tok`.
pub open spec fn token_at(s: Seq<char>, i: int, tok: Seq<char>) -> bool {
    exists|a: int, b: int| token_at_with(s, i, a, b, tok)
}

/// No instance of the token pattern starts before `i`.
pub open spec fn no_token_before(s: Seq<char>, i: int) -> bool {
    forall|i2: int, t2: Seq<char>| 0 <= i2 < i ==> !token_at(s, i2, t2)
}

/// `tok` is the capture of the leftmost instance of the token pattern.
pub open spec fn leftmost_token(s: Seq<char>, i: int, tok: Seq<char>) -> bool {
    token_at(s, i, tok) && no_token_before(s, i)
}

/// The page holds at least one instance of the token pattern.
pub open spec fn page_has_token(s: Seq<char>) -> bool {
    exists|i: int, tok: Seq<char>| token_at(s, i, tok)
}

proof fn lemma_token_at_bounds(s: Seq<char>, i: int, tok: Seq<char>)
    requires
        token_at(s, i, tok),
    ensures
        0 <= i < s.len(),
{
    let (a, b) = choose|a: int, b: int| token_at_with(s, i, a, b, tok);
}

proof fn lemma_first_stop_unique(s: Seq<char>, p: spec_fn(char) -> bool, from: int, r0: int, r: int)
    requires
        from <= r0 <= s.len(),
        forall|j: int| from <= j < r0 ==> p(s[j]),
        r0 < s.len() ==> !p(s[r0]),
        from <= r < s.len(),
        forall|j: int| from <= j < r ==> p(s[j]),
        !p(s[r]),
    ensures
        r == r0,
{
    if r < r0 {
        assert(p(s[r]));
    } else if r > r0 {
        assert(p(s[r0]));
    }
}

fn space_char(c: char) -> (r: bool)
    ensures
        r == is_space_char(c),
{
    c == ' ' || c == '\t' || c == '\n' || c == '\r' || c == '\u{b}' || c == '\u{c}'
}

fn word_char(c: char) -> (r: bool)
    ensures
        r == is_word_char(c),
{
    ('a' <= c && c <= 'z') || ('A' <= c && c <= 'Z') || ('0' <= c && c <= '9') || c == '_'
}

fn scan_spaces(page: &str, from: usize, len: usize) -> (r: usize)
    requires
        len == page@.len(),
        from <= len,
    ensures
        from <= r <= len,
        forall|j: int| from <= j < r ==> is_space_char(page@[j]),
        r < len ==> !is_space_char(page@[r as int]),
{
    let mut i = from;
    loop
        invariant
            from <= i <= len,
            len == page@.len(),
            forall|j: int| from <= j < i ==> is_space_char(page@[j]),
        ensures
            from <= i <= len,
            forall|j: int| from <= j < i ==> is_space_char(page@[j]),
            i < len ==> !is_space_char(page@[i as int]),
        decreases len - i,
    {
        if i == len {
            break;
        }
        if !space_char(page.get_char(i)) {
            break;
        }
        i = i + 1;
    }
    i
}

fn scan_word(page: &str, from: usize, len: usize) -> (r: usize)
    requires
        len == page@.len(),
        from <= len,
    ensures
        from <= r <= len,
        forall|j: int| from <= j < r ==> is_word_char(page@[j]),
        r < len ==> !is_word_char(page@[r as int]),
{
    let mut i = from;
    loop
        invariant
            from <= i <= len,
            len == page@.len(),
            forall|j: int| from <= j < i ==> is_word_char(page@[j]),
        ensures
            from <= i <= len,
            forall|j: int| from <= j < i ==> is_word_char(page@[j]),
            i < len ==> !is_word_char(page@[i as int]),
        decreases len - i,
    {
        if i == len {
            break;
        }
        if !word_char(page.get_char(i)) {
            break;
        }
        i = i + 1;
    }
    i
}

fn try_token_at(page: &str, i: usize, len: usize) -> (r: Option<String>)
    requires
        len == page@.len(),
        i <= len,
    ensures
        match r {
            Some(t) => token_at(page@, i as int, t@),
            None => forall|tok: Seq<char>| !token_at(page@, i as int, tok),
        },
{
    let ghost s = page@;
    let pat = "api_token";
    proof {
        reveal_strlit("api_token");
    }
    if len - i < 9 {
        proof {
            assert forall|tok: Seq<char>| !token_at(s, i as int, tok) by {
                if token_at(s, i as int, tok) {
                    let (a, b) = choose|a: int, b: int| token_at_with(s, i as int, a, b, tok);
                }
            }
        }
        return None;
    }
    let mut j: usize = 0;
    while j < 9
        invariant
            j <= 9,
            i + 9 <= len,
            len == s.len(),
            s == page@,
            pat@ == "api_token"@,
            pat@.len() == 9,
            forall|k: int| 0 <= k < j ==> s[i + k] == "api_token"@[k],
        decreases 9 - j,
    {
        if page.get_char(i + j) != pat.get_char(j) {
            proof {
                assert forall|tok: Seq<char>| !token_at(s, i as int, tok) by {
                    if token_at(s, i as int, tok) {
                        let (a, b) = choose|a: int, b: int| token_at_with(s, i as int, a, b, tok);
                        assert(s.subrange(i as int, i + 9)[j as int] == s[i + j]);
                    }
                }
            }
            return None;
        }
        j = j + 1;
    }
    let a0 = scan_spaces(page, i + 9, len);
    if a0 == len || page.get_char(a0) != ':' {
        proof {
            assert forall|tok: Seq<char>| !token_at(s, i as int, tok) by {
                if token_at(s, i as int, tok) {
                    let (a, b) = choose|a: int, b: int| token_at_with(s, i as int, a, b, tok);
                    assert forall|k: int| i + 9 <= k < a implies is_space_char(s[k]) by {
                        assert(s.subrange(i + 9, a)[k - (i + 9)] == s[k]);
                    }
                    lemma_first_stop_unique(
                        s,
                        |c: char| is_space_char(c),
                        i + 9,
                        a0 as int,
                        a,
                    );
                }
            }
        }
        return None;
    }
    let b0 = scan_spaces(page, a0 + 1, len);
    if b0 == len || page.get_char(b0) != '\'' {
        proof {
            assert forall|tok: Seq<char>| !token_at(s, i as int, tok) by {
                if token_at(s, i as int, tok) {
                    let (a, b) = choose|a: int, b: int| token_at_with(s, i as int, a, b, tok);
                    assert forall|k: int| i + 9 <= k < a implies is_space_char(s[k]) by {
                        assert(s.subrange(i + 9, a)[k - (i + 9)] == s[k]);
                    }
                    lemma_first_stop_unique(
                        s,
                        |c: char| is_space_char(c),
                        i + 9,
                        a0 as int,
                        a,
                    );
                    assert forall|k: int| a0 + 1 <= k < b implies is_space_char(s[k]) by {
                        assert(s.subrange(a0 + 1, b)[k - (a0 + 1)] == s[k]);
                    }
                    lemma_first_stop_unique(
                        s,
                        |c: char| is_space_char(c),
                        a0 + 1,
                        b0 as int,
                        b,
                    );
                }
            }
        }
        return None;
    }
    let e = scan_word(page, b0 + 1, len);
    if e == b0 + 1 || e == len || page.get_char(e) != '\'' {
        proof {
            assert forall|tok: Seq<char>| !token_at(s, i as int, tok) by {
                if token_at(s, i as int, tok) {
                    let (a, b) = choose|a: int, b: int| token_at_with(s, i as int, a, b, tok);
                    assert forall|k: int| i + 9 <= k < a implies is_space_char(s[k]) by {
                        assert(s.subrange(i + 9, a)[k - (i + 9)] == s[k]);
                    }
                    lemma_first_stop_unique(
                        s,
                        |c: char| is_space_char(c),
                        i + 9,
                        a0 as int,
                        a,
                    );
                    assert forall|k: int| a0 + 1 <= k < b implies is_space_char(s[k]) by {
                        assert(s.subrange(a0 + 1, b)[k - (a0 + 1)] == s[k]);
                    }
                    lemma_first_stop_unique(
                        s,
                        |c: char| is_space_char(c),
                        a0 + 1,
                        b0 as int,
                        b,
                    );
                    let q = b + 1 + tok.len() as int;
                    assert forall|k: int| b + 1 <= k < q implies is_word_char(s[k]) by {
                        assert(tok[k - (b + 1)] == s.subrange(b + 1, q)[k - (b + 1)]);
                    }
                    assert(!is_word_char(s[q]));
                    lemma_first_stop_unique(s, |c: char| is_word_char(c), b + 1, e as int, q);
                }
            }
        }
        return None;
    }
    let t = page.substring_char(b0 + 1, e).to_owned();
    proof {
        assert(s.subrange(i as int, i + 9) =~= "api_token"@);
        assert forall|k: int| 0 <= k < a0 - (i + 9) implies is_space_char(
            #[trigger] s.subrange(i + 9, a0 as int)[k],
        ) by {
            assert(s.subrange(i + 9, a0 as int)[k] == s[i + 9 + k]);
        }
        assert forall|k: int| 0 <= k < b0 - (a0 + 1) implies is_space_char(
            #[trigger] s.subrange(a0 + 1, b0 as int)[k],
        ) by {
            assert(s.subrange(a0 + 1, b0 as int)[k] == s[a0 + 1 + k]);
        }
        assert forall|k: int| 0 <= k < t@.len() implies is_word_char(#[trigger] t@[k]) by {
            assert(t@[k] == s[b0 + 1 + k]);
        }
        assert(t@ == s.subrange(b0 + 1, b0 + 1 + t@.len() as int));
        assert(token_at_with(s, i as int, a0 as int, b0 as int, t@));
        assert(token_at(s, i as int, t@));
    }
    Some(t)
}

/// What scraping yields: the capture of the leftmost pattern instance, or
/// the token-parse error on a page without one.
pub open spec fn scrape_post(s: Seq<char>, r: Result<String, Error>) -> bool {
    match r {
        Ok(t) => exists|i: int| leftmost_token(s, i, t@),
        Err(e) => e == Error::TokenParse && !page_has_token(s),
    }
}

/// Find the leftmost instance of the token pattern in `page` and return its
/// capture; fail with the token-parse error when the page holds none.
pub fn extract_token(page: &str) -> (r: Result<String, Error>)
    ensures
        scrape_post(page@, r),
{
    let ghost s = page@;
    let len = page.unicode_len();
    let mut i: usize = 0;
    while i < len
        invariant
            i <= len,
            len == s.len(),
            s == page@,
            forall|i2: int, t2: Seq<char>| 0 <= i2 < i ==> !token_at(s, i2, t2),
        decreases len - i,
    {
        match try_token_at(page, i, len) {
            Some(t) => {
                proof {
                    let ghost rr = Result::<String, Error>::Ok(t);
                    assert(rr->Ok_0 == t);
                    assert(leftmost_token(page@, i as int, (rr->Ok_0)@));
                    assert(exists|i2: int| leftmost_token(page@, i2, (rr->Ok_0)@));
                    assert(scrape_post(page@, rr));
                }
                return Ok(t);
            },
            None => {},
        }
        i = i + 1;
    }
    proof {
        assert forall|i2: int, t2: Seq<char>| !token_at(s, i2, t2) by {
            if token_at(s, i2, t2) {
                lemma_token_at_bounds(s, i2, t2);
            }
        }
    }
    Err(Error::TokenParse)
}

} // verus!
