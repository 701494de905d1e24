//! Turning stored content into what a reader is shown.
use vstd::prelude::*;

verus! {

#[verifier::external_type_specification]
#[verifier::external_body]
pub struct ExHtmlError(html2text::Error);

/// What `html_escape::decode_html_entities` gives for `s`.
pub uninterp spec fn entities_decoded(s: Seq<char>) -> Seq<char>;

/// What `html2text::from_read` gives for the HTML `html` wrapped to `width`
/// columns; none where it fails.
pub uninterp spec fn html_text_of(html: Seq<char>, width: usize) -> Option<Seq<char>>;

/// Relies on `html_escape::decode_html_entities`: `s` with its HTML entities
/// (`&lt;` and the like) decoded.
#[verifier::external_body]
fn decode_entities(s: &str) -> (r: String)
    ensures
        r@ == entities_decoded(s@),
{
    html_escape::decode_html_entities(s).into_owned()
}

/// Relies on `html2text::from_read`: the plain text of an HTML document,
/// wrapped to `width` columns.
#[verifier::external_body]
fn html_to_text(html: &str, width: usize) -> (r: Result<String, html2text::Error>)
    ensures
        match r {
            Ok(t) => html_text_of(html@, width) == Some(t@),
            Err(_) => html_text_of(html@, width) is None,
        },
{
    html2text::from_read(html.as_bytes(), width)
}

/// The column width of rendered text.
pub const TEXT_WIDTH: usize = 80;

/// How content is shown in `format`: `text` decodes the HTML entities and
/// then renders the HTML as plain text; any other format shows the content
/// as it is. None where the HTML cannot be rendered.
pub open spec fn shown_as(content: Seq<char>, format: Seq<char>) -> Option<Seq<char>> {
    if format == "text"@ {
        html_text_of(entities_decoded(content), TEXT_WIDTH)
    } else {
        Some(content)
    }
}

/// Renders decoded HTML as plain text.
pub fn text_of_decoded(decoded: &str) -> (r: Option<String>)
    ensures
        r.deep_view() == html_text_of(decoded@, TEXT_WIDTH),
{
    match html_to_text(decoded, TEXT_WIDTH) {
        Ok(t) => Some(t),
        Err(_) => None,
    }
}

/// The content as shown in `format`.
pub fn render_content(content: &str, format: &str) -> (r: Option<String>)
    ensures
        r.deep_view() == shown_as(content@, format@),
{
    if String::from_str(format) == String::from_str("text") {
        let decoded = decode_entities(content);
        text_of_decoded(decoded.as_str())
    } else {
        Some(String::from_str(content))
    }
}

} // verus!
