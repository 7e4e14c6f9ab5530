use std::collections::HashMap;

use vstd::prelude::*;

use crate::model::Template;

verus! {

/// What rendering `format` with `data` gives: the text, or the message of
/// the failure.
pub uninterp spec fn rendered(format: Seq<char>, data: Map<Seq<char>, Seq<char>>) -> Result<Seq<char>, Seq<char>>;

/// A character that may stand in a placeholder's name here: an ASCII
/// letter, digit or `_`.
pub open spec fn is_key_char(c: char) -> bool {
    ('a' <= c && c <= 'z') || ('A' <= c && c <= 'Z') || ('0' <= c && c <= '9') || c == '_'
}

/// `format` holds exactly one `{`, at `open`, and the first `}` after it is
/// at `close`, with a non-empty name of key characters between them: one
/// placeholder and nothing else that could be read as one.
pub open spec fn single_placeholder(format: Seq<char>, open: int, close: int) -> bool {
    &&& 0 <= open && open + 1 < close && close < format.len()
    &&& format[open] == '{' && format[close] == '}'
    &&& forall|i: int| 0 <= i < format.len() && i != open ==> format[i] != '{'
    &&& forall|i: int| open < i < close ==> is_key_char(#[trigger] format[i])
}

/// Where the single placeholder of `format` opens and closes, if it has one.
pub open spec fn placeholder_span(format: Seq<char>) -> Option<(int, int)> {
    if exists|span: (int, int)| single_placeholder(format, span.0, span.1) {
        Some(choose|span: (int, int)| single_placeholder(format, span.0, span.1))
    } else {
        None
    }
}

/// The name in the single placeholder of `format`.
pub open spec fn placeholder_key(format: Seq<char>) -> Seq<char> {
    let span = placeholder_span(format)->0;
    format.subrange(span.0 + 1, span.1)
}

/// The message of a rendering that found no value for `key`.
pub open spec fn missing_message(key: Seq<char>) -> Seq<char> {
    "MissingData: Missing Data for Argument \""@ + key + "\""@
}

/// `format` with its single placeholder replaced by the value of its name.
pub open spec fn filled(format: Seq<char>, data: Map<Seq<char>, Seq<char>>) -> Seq<char> {
    let span = placeholder_span(format)->0;
    format.subrange(0, span.0) + data[placeholder_key(format)] + format.subrange(span.1 + 1, format.len() as int)
}

/// Relies on new_string_template's `Template::render_string`: each
/// `{name}` token is replaced by the value under `name`, and the first token
/// without a value fails the rendering with a message that names it. The
/// outcome depends on the format string and the values alone. A format
/// string without `{` holds no token, and the crate then hands it back as it
/// is; the same holds without `}`, which every token ends with. Its tokens
/// are the matches of `\{\s*(\S+?)\s*\}`: in a format string with a
/// single placeholder whose name is made of key characters, the one
/// token is that placeholder and its name is the text between the braces.
#[verifier::external_body]
fn render_with(format: &String, data: &HashMap<String, String>) -> (r: Result<String, String>)
    ensures
        r is Ok ==> rendered(format@, data.deep_view()) == Ok::<Seq<char>, Seq<char>>(r->Ok_0@),
        r is Err ==> rendered(format@, data.deep_view()) == Err::<Seq<char>, Seq<char>>(r->Err_0@),
        !format@.contains('{') ==> r is Ok && r->Ok_0@ == format@,
        !format@.contains('}') ==> r is Ok && r->Ok_0@ == format@,
        placeholder_span(format@) is Some ==> (r is Ok <==> data.deep_view().contains_key(placeholder_key(format@))),
        placeholder_span(format@) is Some && r is Ok ==> r->Ok_0@ == filled(format@, data.deep_view()),
        placeholder_span(format@) is Some && r is Err ==> r->Err_0@ == missing_message(placeholder_key(format@)),
{
    new_string_template::template::Template::new(format.as_str())
        .render_string(data)
        .map_err(|e| e.to_string())
}

impl Template {
    /// Applies the template to `data`. On failure the message starts with
    /// "Failed to render template: " and then says what was missing.
    pub fn format(&self, data: HashMap<String, String>) -> (r: Result<String, String>)
        ensures
            r matches Ok(s) ==> rendered(self.format_string@, data.deep_view()) == Ok::<Seq<char>, Seq<char>>(s@),
            r matches Err(e) ==> exists|m: Seq<char>|
                rendered(self.format_string@, data.deep_view()) == Err::<Seq<char>, Seq<char>>(m)
                && e@ == "Failed to render template: "@ + m,
            !self.format_string@.contains('{') ==> r is Ok && r->Ok_0@ == self.format_string@,
            !self.format_string@.contains('}') ==> r is Ok && r->Ok_0@ == self.format_string@,
            placeholder_span(self.format_string@) is Some ==> (r is Ok <==> data.deep_view().contains_key(placeholder_key(self.format_string@))),
            placeholder_span(self.format_string@) is Some && r is Ok ==> r->Ok_0@ == filled(self.format_string@, data.deep_view()),
            placeholder_span(self.format_string@) is Some && r is Err ==> r->Err_0@ == "Failed to render template: "@ + missing_message(placeholder_key(self.format_string@)),
    {
        match render_with(&self.format_string, &data) {
            Ok(s) => Ok(s),
            Err(e) => {
                let prefix = String::from_str("Failed to render template: ");
                Err(prefix.concat(e.as_str()))
            },
        }
    }
}

} // verus!
