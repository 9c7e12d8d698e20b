//! Deriving a Wikipedia article URL from an article title.
use vstd::prelude::*;

verus! {

/// The fixed base that every article URL starts with.
pub open spec fn wiki_base() -> Seq<char> {
    "https://en.wikipedia.org/wiki/"@
}

/// Every space of `s` replaced by an underscore; all other characters kept.
pub open spec fn underscored(s: Seq<char>) -> Seq<char> {
    s.map_values(|c: char| if c == ' ' { '_' } else { c })
}

/// The article URL derived from a title: the fixed base followed by the
/// title with spaces replaced by underscores.
pub open spec fn article_url_spec(title: Seq<char>) -> Seq<char> {
    wiki_base() + underscored(title)
}

/// Replace every space of `s` by an underscore.
pub fn replace_spaces(s: &str) -> (r: String)
    ensures
        r@ == underscored(s@),
{
    let n: usize = s.unicode_len();
    let mut out = String::new();
    let mut i: usize = 0;
    while i < n
        invariant
            n == s@.len(),
            i <= n,
            out@ == underscored(s@.subrange(0, i as int)),
        decreases n - i,
    {
        let c = s.get_char(i);
        if c == ' ' {
            crate::chars::push_char(&mut out, '_');
        } else {
            crate::chars::push_char(&mut out, c);
        }
        i = i + 1;
        proof {
            assert(s@.subrange(0, i as int).drop_last() =~= s@.subrange(0, i - 1));
            assert(out@ =~= underscored(s@.subrange(0, i as int)));
        }
    }
    proof {
        assert(s@.subrange(0, n as int) =~= s@);
    }
    out
}

/// Derive the article URL for `title`: the fixed base, then the title with
/// spaces replaced by underscores.
pub fn article_url(title: &str) -> (r: String)
    ensures
        r@ == article_url_spec(title@),
{
    let base = String::from_str("https://en.wikipedia.org/wiki/");
    let tail = replace_spaces(title);
    base.concat(tail.as_str())
}

/// Replacing spaces by underscores is idempotent: doing it twice gives the
/// same result as doing it once.
pub proof fn lemma_underscored_idempotent(s: Seq<char>)
    ensures
        underscored(underscored(s)) == underscored(s),
{
    assert(underscored(underscored(s)) =~= underscored(s));
}

/// A title without spaces is untouched: its article URL is the fixed base
/// followed by the title itself.
pub proof fn lemma_url_identity_without_spaces(title: Seq<char>)
    requires
        forall|i: int| 0 <= i < title.len() ==> title[i] != ' ',
    ensures
        article_url_spec(title) == wiki_base() + title,
{
    assert(underscored(title) =~= title);
}

} // verus!
