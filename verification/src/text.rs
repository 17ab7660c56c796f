//! Word-boundary-safe truncation of post text, and the combination of a
//! truncation with a permashort citation.

use vstd::prelude::*;

use crate::permashort_link::PermashortCitation;
use crate::permashort_link::citation_display;
use crate::permashort_link::citation_uri;

verus! {

/// Characters reserved for the link when a truncated excerpt is rendered.
pub const LINK_ALLOWANCE: usize = 23;

/// Characters reserved for the space, the ellipsis and the two quote marks
/// around a truncated excerpt.
pub const EXCERPT_DECORATION: usize = 4;

/// Whether the text contains a word separator at all.
pub open spec fn has_space(s: Seq<char>) -> bool {
    exists|j: int| 0 <= j < s.len() && s[j] == ' '
}

/// A prefix of length `c` ends exactly at a word boundary: either at the end
/// of the text or just before a separating space.
pub open spec fn is_word_boundary(s: Seq<char>, c: int) -> bool {
    c == s.len() || (0 <= c < s.len() && s[c] == ' ')
}

/// The greatest word boundary of `s` that is at most `c` and strictly below
/// `limit`; 0 when no such boundary exists.
pub open spec fn word_cut(s: Seq<char>, limit: int, c: int) -> int
    decreases c,
{
    if c <= 0 {
        0
    } else if is_word_boundary(s, c) && c < limit {
        c
    } else {
        word_cut(s, limit, c - 1)
    }
}

/// What `shorten` returns: the whole text where it fits; for a text without
/// spaces a hard cut at the limit; otherwise the longest prefix that ends at
/// a word boundary and stays strictly below the limit.
pub open spec fn spec_shorten(s: Seq<char>, limit: int) -> Seq<char> {
    if !has_space(s) {
        if s.len() <= limit {
            s
        } else {
            s.take(limit)
        }
    } else {
        s.take(word_cut(s, limit, s.len() as int))
    }
}

proof fn lemma_word_cut_props(s: Seq<char>, limit: int, c: int)
    requires
        0 <= c <= s.len(),
    ensures
        0 <= word_cut(s, limit, c) <= c,
        word_cut(s, limit, c) == 0 || (is_word_boundary(s, word_cut(s, limit, c))
            && word_cut(s, limit, c) < limit),
        forall|b: int| 0 < b <= c && is_word_boundary(s, b) && b < limit
            ==> b <= word_cut(s, limit, c),
    decreases c,
{
    if c <= 0 {
    } else if is_word_boundary(s, c) && c < limit {
    } else {
        lemma_word_cut_props(s, limit, c - 1);
    }
}

/// The truncation never grows the text, and keeps the whole text exactly
/// when the cut length equals the text's length.
proof fn lemma_shorten_len(s: Seq<char>, limit: int)
    requires
        0 <= limit,
    ensures
        spec_shorten(s, limit).len() <= s.len(),
        spec_shorten(s, limit).len() == s.len() <==> spec_shorten(s, limit) == s,
{
    if !has_space(s) {
        if s.len() > limit {
            assert(s.take(limit).len() == limit);
        }
    } else {
        lemma_word_cut_props(s, limit, s.len() as int);
        let c = word_cut(s, limit, s.len() as int);
        assert(s.take(c).len() == c);
        if c == s.len() {
            assert(s.take(c) =~= s);
        }
    }
    if spec_shorten(s, limit).len() == s.len() {
        assert(spec_shorten(s, limit) =~= s);
    }
}

/// The boundary behaviour of the truncation: a text without spaces is cut
/// exactly at the limit; any other text is cut at the greatest word boundary
/// strictly below the limit (or at 0 where no word fits).
pub proof fn lemma_shorten_boundary(s: Seq<char>, limit: int)
    requires
        0 <= limit,
    ensures
        !has_space(s) && s.len() >= limit ==> spec_shorten(s, limit).len() == limit,
        !has_space(s) && s.len() < limit ==> spec_shorten(s, limit) == s,
        has_space(s) ==> spec_shorten(s, limit)
            == s.take(word_cut(s, limit, s.len() as int)),
        has_space(s) ==> word_cut(s, limit, s.len() as int) == 0
            || (is_word_boundary(s, word_cut(s, limit, s.len() as int))
                && word_cut(s, limit, s.len() as int) < limit),
        has_space(s) ==> forall|b: int|
            0 < b <= s.len() && is_word_boundary(s, b) && b < limit
                ==> b <= word_cut(s, limit, s.len() as int),
{
    if has_space(s) {
        lemma_word_cut_props(s, limit, s.len() as int);
    } else if s.len() >= limit {
        assert(s.take(limit).len() == limit);
    }
}

/// Truncates `text` to fit within `limit` characters without splitting a
/// word; a text with no spaces is cut at the limit with no word protection.
pub fn shorten<'a>(text: &'a str, limit: usize) -> (r: &'a str)
    ensures
        r@ == spec_shorten(text@, limit as int),
{
    let ghost s = text@;
    let n = text.unicode_len();
    let mut has_sp: bool = if n > 0 {
        text.get_char(0) == ' '
    } else {
        false
    };
    let mut best: usize = 0;
    let mut c: usize = 1;
    while c < n
        invariant
            n == s.len(),
            s == text@,
            1 <= c,
            n > 0 ==> c <= n,
            n == 0 ==> c == 1,
            best == word_cut(s, limit as int, c as int - 1),
            has_sp <==> exists|j: int| 0 <= j < c && j < n && s[j] == ' ',
        decreases n - c,
    {
        if text.get_char(c) == ' ' {
            has_sp = true;
            if c < limit {
                best = c;
            }
        }
        c += 1;
    }
    proof {
        if n > 0 {
            assert(best == word_cut(s, limit as int, n as int - 1));
        }
        assert(has_sp <==> has_space(s));
    }
    if n < limit {
        best = n;
    }
    proof {
        lemma_word_cut_props(s, limit as int, s.len() as int);
        if n > 0 {
            // the boundary at the end of the text is taken exactly when the
            // whole text is below the limit
            assert(is_word_boundary(s, n as int));
            assert(best == word_cut(s, limit as int, n as int));
        } else {
            assert(word_cut(s, limit as int, 0) == 0);
        }
    }
    if !has_sp {
        if n <= limit {
            text
        } else {
            let r = text.substring_char(0, limit);
            proof {
                assert(r@ =~= s.take(limit as int));
            }
            r
        }
    } else {
        let r = text.substring_char(0, best);
        proof {
            assert(r@ =~= s.take(word_cut(s, limit as int, s.len() as int)));
        }
        r
    }
}

/// The words of a text, as single spaces separate them: consecutive spaces
/// yield empty words, exactly as splitting on one space character does.
pub open spec fn spec_words(s: Seq<char>) -> Seq<Seq<char>>
    decreases s.len(),
{
    if s.len() == 0 {
        seq![Seq::<char>::empty()]
    } else if s[0] == ' ' {
        seq![Seq::<char>::empty()] + spec_words(s.skip(1))
    } else {
        let rest = spec_words(s.skip(1));
        seq![seq![s[0]] + rest[0]] + rest.skip(1)
    }
}

/// Splitting a text whose first `k` characters hold no space: where the
/// text ends at `k` it is one single word; where a space follows, the first
/// word is the prefix of length `k` and the rest splits on its own.
proof fn lemma_words_head(s: Seq<char>, k: int)
    requires
        0 <= k <= s.len(),
        forall|j: int| 0 <= j < k ==> s[j] != ' ',
    ensures
        k == s.len() ==> spec_words(s) == seq![s],
        k < s.len() && s[k] == ' ' ==> spec_words(s) == seq![s.take(k)] + spec_words(
            s.skip(k + 1),
        ),
    decreases k,
{
    if k == 0 {
        if k == s.len() {
            assert(spec_words(s) =~~= seq![s]);
        } else if s[k] == ' ' {
            assert(s.take(0) =~= Seq::<char>::empty());
            assert(s.skip(1) =~= s.skip(k + 1));
            assert(spec_words(s) =~~= seq![s.take(0)] + spec_words(s.skip(k + 1)));
        }
    } else {
        let tail = s.skip(1);
        assert(forall|j: int| 0 <= j < k - 1 ==> tail[j] != ' ');
        lemma_words_head(tail, k - 1);
        let rest = spec_words(tail);
        if k == s.len() {
            assert(rest == seq![tail]);
            assert(rest[0] == tail);
            assert(seq![s[0]] + tail =~= s);
            assert(rest.skip(1) =~= Seq::<Seq<char>>::empty());
            assert(spec_words(s) =~~= seq![s]);
        } else if s[k] == ' ' {
            assert(tail[k - 1] == ' ');
            assert(rest == seq![tail.take(k - 1)] + spec_words(tail.skip(k)));
            assert(rest[0] == tail.take(k - 1));
            assert(seq![s[0]] + tail.take(k - 1) =~= s.take(k));
            assert(rest.skip(1) =~= spec_words(tail.skip(k)));
            assert(tail.skip(k) =~= s.skip(k + 1));
            assert(spec_words(s) =~~= seq![s.take(k)] + spec_words(s.skip(k + 1)));
        }
    }
}

/// Splits the text at its spaces.
pub fn words<'a>(input: &'a str) -> (r: Vec<&'a str>)
    ensures
        r@.map_values(|w: &str| w@) == spec_words(input@),
{
    let ghost s = input@;
    let n = input.unicode_len();
    let mut result: Vec<&'a str> = Vec::new();
    let mut start: usize = 0;
    let mut e: usize = 0;
    proof {
        assert(result@.map_values(|w: &str| w@) =~= Seq::<Seq<char>>::empty());
        assert(s.skip(0) =~= s);
        assert(result@.map_values(|w: &str| w@) + spec_words(s.skip(0)) =~= spec_words(s));
    }
    while e < n
        invariant
            s == input@,
            n == s.len(),
            0 <= start <= e <= n,
            forall|j: int| start <= j < e ==> s[j] != ' ',
            spec_words(s) == result@.map_values(|w: &str| w@) + spec_words(s.skip(start as int)),
        decreases n - e,
    {
        if input.get_char(e) == ' ' {
            let word = input.substring_char(start, e);
            proof {
                let sub = s.skip(start as int);
                assert(forall|j: int| 0 <= j < e - start ==> sub[j] == s[j + start]);
                lemma_words_head(sub, e as int - start as int);
                assert(sub.take(e as int - start as int) =~= word@);
                assert(sub.skip(e as int - start as int + 1) =~= s.skip(e as int + 1));
                assert((result@.push(word)).map_values(|w: &str| w@) =~= result@.map_values(
                    |w: &str| w@,
                ).push(word@));
                assert(spec_words(s) =~= result@.map_values(|w: &str| w@).push(word@)
                    + spec_words(s.skip(e as int + 1)));
            }
            result.push(word);
            start = e + 1;
        }
        e += 1;
    }
    let word = input.substring_char(start, n);
    proof {
        let sub = s.skip(start as int);
        assert(forall|j: int| 0 <= j < n - start ==> sub[j] == s[j + start]);
        lemma_words_head(sub, n as int - start as int);
        assert(sub =~= word@);
        assert((result@.push(word)).map_values(|w: &str| w@) =~= result@.map_values(
            |w: &str| w@,
        ).push(word@));
        assert(spec_words(s) =~= result@.map_values(|w: &str| w@).push(word@));
    }
    result.push(word);
    result
}

/// The citation suffix appended to an untruncated text: ` [domain path]`.
pub open spec fn citation_suffix(pc: PermashortCitation) -> Seq<char> {
    seq![' ', '['] + citation_display(pc) + seq![']']
}

/// What `shorten_with_permashort_citation` returns. Where the text fits
/// within the budget left by the bracketed citation, the citation is
/// appended in bracket form to the untouched text; otherwise a shorter
/// excerpt is quoted, an ellipsis follows, and the citation's full URI
/// closes the rendering.
pub open spec fn spec_shorten_with_citation(
    s: Seq<char>,
    limit: int,
    pc: PermashortCitation,
) -> Seq<char> {
    let budget = limit - citation_suffix(pc).len();
    if spec_shorten(s, budget) == s {
        s + citation_suffix(pc)
    } else {
        seq!['"'] + spec_shorten(s, limit - LINK_ALLOWANCE - EXCERPT_DECORATION)
            + seq!['"', '\u{2026}', ' '] + citation_uri(pc)
    }
}

/// Shortens `text` to the network's character budget and attaches the
/// citation: in bracket form when no truncation was needed, as a quoted
/// excerpt with the full short URI otherwise.
pub fn shorten_with_permashort_citation(
    text: &str,
    limit: usize,
    permashort_citation: &PermashortCitation,
) -> (r: String)
    requires
        citation_suffix(*permashort_citation).len() <= limit,
        // the link-and-decoration reservation only matters where the text
        // must actually be truncated; a text that fits takes the append
        // branch whatever the limit
        spec_shorten(text@, limit - citation_suffix(*permashort_citation).len()) != text@
            ==> LINK_ALLOWANCE + EXCERPT_DECORATION <= limit,
    ensures
        r@ == spec_shorten_with_citation(text@, limit as int, *permashort_citation),
{
    let ghost s = text@;
    let display = permashort_citation.to_string();
    let mut pc = String::from_str(" [");
    pc.append(display.as_str());
    pc.append("]");
    proof {
        reveal_strlit(" [");
        reveal_strlit("]");
        assert(" ["@ =~= seq![' ', '[']);
        assert("]"@ =~= seq![']']);
        assert(pc@ =~= citation_suffix(*permashort_citation));
    }
    let pc_len = pc.as_str().unicode_len();
    let shortened = shorten(text, limit - pc_len);
    let n = text.unicode_len();
    proof {
        lemma_shorten_len(s, limit - pc_len as int);
    }
    if shortened.unicode_len() == n {
        let mut appended = String::from_str(text);
        appended.append(pc.as_str());
        proof {
            assert(appended@ =~= s + citation_suffix(*permashort_citation));
        }
        appended
    } else {
        let excerpt = shorten(text, limit - LINK_ALLOWANCE - EXCERPT_DECORATION);
        let uri = permashort_citation.to_uri();
        let mut quoted = String::from_str("\"");
        quoted.append(excerpt);
        quoted.append("\"\u{2026} ");
        quoted.append(uri.as_str());
        proof {
            reveal_strlit("\"");
            reveal_strlit("\"\u{2026} ");
            assert("\""@ =~= seq!['"']);
            assert("\"\u{2026} "@ =~= seq!['"', '\u{2026}', ' ']);
            assert(quoted@ =~= seq!['"']
                + spec_shorten(s, limit as int - LINK_ALLOWANCE - EXCERPT_DECORATION)
                + seq!['"', '\u{2026}', ' '] + citation_uri(*permashort_citation));
        }
        quoted
    }
}

} // verus!
