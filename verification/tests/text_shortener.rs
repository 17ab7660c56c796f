use orion::PermashortCitation;
use orion::shorten;
use orion::shorten_with_permashort_citation;

#[test]
fn test_short_returns_same_if_short() {
    let short_text = "This is some text.";
    assert_eq!(shorten(short_text, 100), short_text)
}

#[test]
fn test_shorten_returns_shortened_sentence_limit_on_dot() {
    let text = "This is some text. Looooong word.";
    assert_eq!(shorten(text, 18), "This is some")
}

#[test]
fn test_shorten_returns_shortened_sentence_limit_after_dot() {
    let text = "This is some text. Looooong word.";
    assert_eq!(shorten(text, 19), "This is some text.")
}

#[test]
fn test_shorten_returns_shortened_sentence_limit_with_ellipsis() {
    let text = "This is some text. Looooong word.";
    assert_eq!(shorten(text, 21), "This is some text.")
}

#[test]
fn test_shorten_returns_shortened_sentence_limit_with_ellipsis_longer() {
    let text = "This is some text. Looooong word.";
    assert_eq!(shorten(text, 23), "This is some text.")
}

#[test]
fn test_shorten_cuts_single_long_word_at_the_limit() {
    // a text with no spaces is cut at the limit, with no word protection
    assert_eq!(shorten("Supercalifragilistic", 5), "Super");
    assert_eq!(shorten("Super", 5), "Super");
}

#[test]
fn test_shorten_keeps_word_boundary_strictly_below_limit() {
    // boundaries sit at 2 and 5; only 2 is strictly below the limit of 5
    assert_eq!(shorten("ab cd", 5), "ab");
    assert_eq!(shorten("ab cd", 6), "ab cd");
}

#[test]
fn test_words_split_at_single_spaces() {
    assert_eq!(
        orion::words("This is some text."),
        vec!["This", "is", "some", "text."]
    );
    // consecutive spaces yield empty words, an empty text one empty word
    assert_eq!(orion::words("a  b"), vec!["a", "", "b"]);
    assert_eq!(orion::words(""), vec![""]);
}

fn citation() -> PermashortCitation {
    PermashortCitation::new(
        String::from("https"),
        String::from("vdx.hu"),
        String::from("s/Df3l"),
    )
}

#[test]
fn test_citation_is_appended_in_brackets_when_text_fits() {
    let text = "This is some text. Looooong word.";
    let result = shorten_with_permashort_citation(text, 60, &citation());
    assert_eq!(result, "This is some text. Looooong word. [vdx.hu s/Df3l]");
}

#[test]
fn test_citation_uses_quoted_excerpt_when_text_is_truncated() {
    let text = "This is some text. Looooong word.";
    let result = shorten_with_permashort_citation(text, 40, &citation());
    assert_eq!(result, "\"This is some\"\u{2026} https://vdx.hu/s/Df3l");
}

#[test]
fn test_citation_append_works_below_the_excerpt_reservation() {
    // a fitting text takes the append branch even when the limit is too
    // small to ever hold a quoted excerpt
    let result = shorten_with_permashort_citation("hi", 20, &citation());
    assert_eq!(result, "hi [vdx.hu s/Df3l]");
}
